//! The mesh: a kernel of four element buffers plus the traversal tag
//! counter, with handle-typed add/remove/get and the topology navigation
//! that the proxy layer of a half-edge mesh offers. Navigation never fails
//! loudly: asked to step from a handle that does not resolve, it returns
//! the invalid handle, which itself resolves to nothing, so a chain of
//! steps can be checked for validity once at its end.

use vstd::prelude::*;
use crate::buffer::{active_count, CompactableBuffer};
use crate::elements::{Edge, Face, Point, Vertex};
use crate::handles::{
    EdgeIndex, EdgeKind, FaceIndex, FaceKind, Index, PointIndex, PointKind, Tag, VertexIndex,
    VertexKind,
};
use crate::kernel::Kernel;
use crate::traits::{AddElement, GetElement, RemoveElement};

verus! {

/// The invalid handle: offset 0, generation ignored. It never resolves.
pub open spec fn invalid<K>() -> Index<K> {
    Index::spec_new(0, 0)
}

#[derive(Debug)]
pub struct Mesh {
    pub kernel: Kernel,
    pub tag: Tag,
}

/// The edges `s` are a closed `next` cycle: every one live, each wired
/// forward to the next around the cycle, and no slot visited twice. This is
/// the shape a face's loop has before any face owns it.
pub open spec fn next_cycle(m: Mesh, s: Seq<EdgeIndex>) -> bool {
    &&& s.len() >= 1
    &&& (forall|i: int| 0 <= i < s.len() ==> #[trigger] m.live_edge(s[i]))
    &&& (forall|i: int| 0 <= i < s.len() ==> (#[trigger] m.edge_at(s[i])).next_index
            == s[if i + 1 == s.len() { 0int } else { i + 1 }])
    &&& (forall|i: int, j: int| 0 <= i < j < s.len() ==> s[i].offset != s[j].offset)
}

/// The edges met by starting at `e` and stepping `len - 1` times along
/// `next`: the canonical walk of a face's loop.
#[verifier::opaque]
pub open spec fn next_chain(m: Mesh, e: EdgeIndex, len: nat) -> Seq<EdgeIndex>
    decreases len,
{
    if len == 0 {
        Seq::empty()
    } else {
        seq![e] + next_chain(m, m.next_spec(e), (len - 1) as nat)
    }
}

/// Starting anywhere on a closed face loop, the `next` walk reproduces the
/// rest of the loop.
proof fn lemma_next_chain_subrange(m: Mesh, s: Seq<EdgeIndex>, k: int)
    requires
        s.len() >= 1,
        0 <= k <= s.len(),
        forall|i: int| 0 <= i < s.len() ==> m.live_edge(#[trigger] s[i]),
        forall|i: int| 0 <= i < s.len() ==> (#[trigger] m.edge_at(s[i])).next_index
            == s[if i + 1 == s.len() { 0int } else { i + 1 }],
    ensures
        k < s.len() ==> next_chain(m, s[k], (s.len() - k) as nat) == s.subrange(k, s.len() as int),
        k == s.len() ==> next_chain(m, s[k - 1], 1nat) == s.subrange(k - 1, s.len() as int),
    decreases s.len() - k,
{
    reveal_with_fuel(next_chain, 2);
    if k == s.len() {
        assert(next_chain(m, s[k - 1], 1nat) =~= s.subrange(k - 1, s.len() as int));
    } else if k == s.len() - 1 {
        assert(next_chain(m, s[k], 1nat) =~= s.subrange(k, s.len() as int));
    } else {
        lemma_next_chain_subrange(m, s, k + 1);
        assert(m.next_spec(s[k]) == s[k + 1]);
        assert(next_chain(m, s[k], (s.len() - k) as nat)
            =~= s.subrange(k, s.len() as int));
    }
}

/// The `next` walk from the first edge of a closed loop reproduces the
/// whole loop.
pub proof fn lemma_next_chain_of_loop(m: Mesh, s: Seq<EdgeIndex>)
    requires
        s.len() >= 1,
        forall|i: int| 0 <= i < s.len() ==> m.live_edge(#[trigger] s[i]),
        forall|i: int| 0 <= i < s.len() ==> (#[trigger] m.edge_at(s[i])).next_index
            == s[if i + 1 == s.len() { 0int } else { i + 1 }],
    ensures
        next_chain(m, s[0], s.len()) == s,
{
    lemma_next_chain_subrange(m, s, 0);
    assert(s.subrange(0, s.len() as int) =~= s);
}

impl Mesh {
    /// The kernel is well-formed and the tag counter stays past the value 0
    /// that fresh slots carry, so a new pass never matches an unvisited slot.
    pub open spec fn wf(self) -> bool {
        self.kernel.wf() && self.tag >= 1
    }

    pub open spec fn live_edge(self, e: EdgeIndex) -> bool {
        self.kernel.edge_buffer.resolves(e)
    }

    pub open spec fn live_face(self, f: FaceIndex) -> bool {
        self.kernel.face_buffer.resolves(f)
    }

    pub open spec fn live_vertex(self, v: VertexIndex) -> bool {
        self.kernel.vertex_buffer.resolves(v)
    }

    pub open spec fn live_point(self, p: PointIndex) -> bool {
        self.kernel.point_buffer.resolves(p)
    }

    pub open spec fn edge_at(self, e: EdgeIndex) -> Edge {
        self.kernel.edge_buffer.value_at(e)
    }

    pub open spec fn face_at(self, f: FaceIndex) -> Face {
        self.kernel.face_buffer.value_at(f)
    }

    pub open spec fn vertex_at(self, v: VertexIndex) -> Vertex {
        self.kernel.vertex_buffer.value_at(v)
    }

    pub open spec fn point_at(self, p: PointIndex) -> Point {
        self.kernel.point_buffer.value_at(p)
    }

    /// Where a step from edge `e` along `next` lands.
    pub open spec fn next_spec(self, e: EdgeIndex) -> EdgeIndex {
        if self.live_edge(e) {
            self.edge_at(e).next_index
        } else {
            invalid()
        }
    }

    /// Where a step from edge `e` along `prev` lands.
    pub open spec fn prev_spec(self, e: EdgeIndex) -> EdgeIndex {
        if self.live_edge(e) {
            self.edge_at(e).prev_index
        } else {
            invalid()
        }
    }

    /// Where a step from edge `e` to its twin lands.
    pub open spec fn adjacent_spec(self, e: EdgeIndex) -> EdgeIndex {
        if self.live_edge(e) {
            self.edge_at(e).twin_index
        } else {
            invalid()
        }
    }

    /// The face edge `e` belongs to.
    pub open spec fn edge_face_spec(self, e: EdgeIndex) -> FaceIndex {
        if self.live_edge(e) {
            self.edge_at(e).face_index
        } else {
            invalid()
        }
    }

    /// The vertex edge `e` leaves from.
    pub open spec fn edge_vertex_spec(self, e: EdgeIndex) -> VertexIndex {
        if self.live_edge(e) {
            self.edge_at(e).vertex_index
        } else {
            invalid()
        }
    }

    /// The root edge of face `f`.
    pub open spec fn root_edge_spec(self, f: FaceIndex) -> EdgeIndex {
        if self.live_face(f) {
            self.face_at(f).edge_index
        } else {
            invalid()
        }
    }

    /// The outgoing edge of vertex `v`.
    pub open spec fn vertex_edge_spec(self, v: VertexIndex) -> EdgeIndex {
        if self.live_vertex(v) {
            self.vertex_at(v).edge_index
        } else {
            invalid()
        }
    }

    /// The point of vertex `v`.
    pub open spec fn vertex_point_spec(self, v: VertexIndex) -> PointIndex {
        if self.live_vertex(v) {
            self.vertex_at(v).point_index
        } else {
            invalid()
        }
    }

    /// An edge lies on the mesh boundary when its face, or its twin's face,
    /// is not a live face.
    pub open spec fn boundary_spec(self, e: EdgeIndex) -> bool {
        !self.live_face(self.edge_face_spec(e))
            || !self.live_face(self.edge_face_spec(self.adjacent_spec(e)))
    }

    /// The edges `s` are the closed loop of face `f`: the root edge first,
    /// each edge wired to the next and back, every one live, owned by `f`,
    /// and no slot visited twice.
    pub open spec fn face_loop(self, f: FaceIndex, s: Seq<EdgeIndex>) -> bool {
        &&& s.len() >= 1
        &&& self.live_face(f)
        &&& self.face_at(f).edge_index == s[0]
        &&& (forall|i: int| 0 <= i < s.len() ==> self.live_edge(#[trigger] s[i]))
        &&& (forall|i: int| 0 <= i < s.len()
                ==> (#[trigger] self.edge_at(s[i])).face_index == f)
        &&& (forall|i: int| 0 <= i < s.len()
                ==> (#[trigger] self.edge_at(s[i])).next_index
                    == s[if i + 1 == s.len() { 0int } else { i + 1 }])
        &&& (forall|i: int| 0 <= i < s.len()
                ==> (#[trigger] self.edge_at(s[i])).prev_index
                    == s[if i == 0 { s.len() - 1 } else { i - 1 }])
        &&& (forall|i: int, j: int| 0 <= i < j < s.len() ==> s[i].offset != s[j].offset)
    }

    pub fn new() -> (r: Mesh)
        ensures
            r.wf(),
            r.tag == 1,
            active_count(r.kernel.edge_buffer.slots()) == 0,
            active_count(r.kernel.face_buffer.slots()) == 0,
            active_count(r.kernel.vertex_buffer.slots()) == 0,
            active_count(r.kernel.point_buffer.slots()) == 0,
            r.kernel.edge_buffer.slots().len() == 1,
            r.kernel.face_buffer.slots().len() == 1,
            r.kernel.vertex_buffer.slots().len() == 1,
            r.kernel.point_buffer.slots().len() == 1,
    {
        Mesh { kernel: Kernel::default(), tag: 1 }
    }

    /// Hands out the tag for one traversal pass and moves the counter on,
    /// skipping the value 0 that unvisited slots carry when it wraps.
    pub fn next_tag(&mut self) -> (r: Tag)
        requires
            old(self).wf(),
        ensures
            final(self).wf(),
            r == old(self).tag,
            r >= 1,
            final(self).tag == (if old(self).tag == u32::MAX { 1u32 } else { (old(self).tag + 1) as u32 }),
            final(self).kernel == old(self).kernel,
    {
        let tag = self.tag;
        self.tag = if self.tag == u32::MAX { 1 } else { self.tag + 1 };
        tag
    }

    pub fn edge_count(&self) -> (r: usize)
        requires
            self.wf(),
        ensures
            r == active_count(self.kernel.edge_buffer.slots()),
    {
        self.kernel.edge_count()
    }

    pub fn face_count(&self) -> (r: usize)
        requires
            self.wf(),
        ensures
            r == active_count(self.kernel.face_buffer.slots()),
    {
        self.kernel.face_count()
    }

    pub fn vertex_count(&self) -> (r: usize)
        requires
            self.wf(),
        ensures
            r == active_count(self.kernel.vertex_buffer.slots()),
    {
        self.kernel.vertex_count()
    }

    pub fn point_count(&self) -> (r: usize)
        requires
            self.wf(),
        ensures
            r == active_count(self.kernel.point_buffer.slots()),
    {
        self.kernel.point_count()
    }

    /// Compacts every buffer of the kernel; see `Kernel::compact` for the
    /// exact statement of what survives and how references are rewritten.
    pub fn compact(&mut self)
        requires
            old(self).wf(),
        ensures
            final(self).wf(),
            final(self).tag == old(self).tag,
            final(self).kernel.edge_buffer.slots() == old(self).kernel.compacted_edges(),
            final(self).kernel.face_buffer.slots() == old(self).kernel.compacted_faces(),
            final(self).kernel.vertex_buffer.slots()
                == old(self).kernel.compacted_vertices(),
            final(self).kernel.point_buffer.slots()
                == crate::kernel::compacted(old(self).kernel.point_buffer.slots()),
            final(self).kernel.edge_buffer.free().len() == 0,
            final(self).kernel.face_buffer.free().len() == 0,
            final(self).kernel.vertex_buffer.free().len() == 0,
            final(self).kernel.point_buffer.free().len() == 0,
            active_count(final(self).kernel.edge_buffer.slots())
                == active_count(old(self).kernel.edge_buffer.slots()),
            active_count(final(self).kernel.face_buffer.slots())
                == active_count(old(self).kernel.face_buffer.slots()),
            active_count(final(self).kernel.vertex_buffer.slots())
                == active_count(old(self).kernel.vertex_buffer.slots()),
            active_count(final(self).kernel.point_buffer.slots())
                == active_count(old(self).kernel.point_buffer.slots()),
    {
        self.kernel.compact()
    }

    /// The edge a step along `next` from `e` reaches; the invalid handle
    /// where `e` does not resolve.
    pub fn next(&self, e: EdgeIndex) -> (r: EdgeIndex)
        ensures
            r == self.next_spec(e),
    {
        match self.kernel.get(&e) {
            Some(edge) => edge.next_index,
            None => Index::new(0),
        }
    }

    /// The edge a step along `prev` from `e` reaches.
    pub fn prev(&self, e: EdgeIndex) -> (r: EdgeIndex)
        ensures
            r == self.prev_spec(e),
    {
        match self.kernel.get(&e) {
            Some(edge) => edge.prev_index,
            None => Index::new(0),
        }
    }

    /// The twin of `e`.
    pub fn adjacent(&self, e: EdgeIndex) -> (r: EdgeIndex)
        ensures
            r == self.adjacent_spec(e),
    {
        match self.kernel.get(&e) {
            Some(edge) => edge.twin_index,
            None => Index::new(0),
        }
    }

    /// The face `e` belongs to.
    pub fn edge_face(&self, e: EdgeIndex) -> (r: FaceIndex)
        ensures
            r == self.edge_face_spec(e),
    {
        match self.kernel.get(&e) {
            Some(edge) => edge.face_index,
            None => Index::new(0),
        }
    }

    /// The vertex `e` leaves from.
    pub fn edge_vertex(&self, e: EdgeIndex) -> (r: VertexIndex)
        ensures
            r == self.edge_vertex_spec(e),
    {
        match self.kernel.get(&e) {
            Some(edge) => edge.vertex_index,
            None => Index::new(0),
        }
    }

    /// The root edge of face `f`.
    pub fn root_edge(&self, f: FaceIndex) -> (r: EdgeIndex)
        ensures
            r == self.root_edge_spec(f),
    {
        match self.kernel.get(&f) {
            Some(face) => face.edge_index,
            None => Index::new(0),
        }
    }

    /// The outgoing edge of vertex `v`.
    pub fn vertex_edge(&self, v: VertexIndex) -> (r: EdgeIndex)
        ensures
            r == self.vertex_edge_spec(v),
    {
        match self.kernel.get(&v) {
            Some(vertex) => vertex.edge_index,
            None => Index::new(0),
        }
    }

    /// The point of vertex `v`.
    pub fn vertex_point(&self, v: VertexIndex) -> (r: PointIndex)
        ensures
            r == self.vertex_point_spec(v),
    {
        match self.kernel.get(&v) {
            Some(vertex) => vertex.point_index,
            None => Index::new(0),
        }
    }

    /// An edge is on the boundary exactly when its own face or its twin's
    /// face is invalid.
    pub fn is_boundary(&self, e: EdgeIndex) -> (r: bool)
        ensures
            r == self.boundary_spec(e),
    {
        let own_face = self.edge_face(e);
        let twin_face = self.edge_face(self.adjacent(e));
        !(self.kernel.get(&own_face).is_some() && self.kernel.get(&twin_face).is_some())
    }

    /// The canonical handles of all live faces, in offset order.
    pub fn faces(&self) -> (r: Vec<FaceIndex>)
        requires
            self.wf(),
        ensures
            r@.len() == active_count(self.kernel.face_buffer.slots()),
            forall|j: int| 0 <= j < r@.len() ==> self.live_face(#[trigger] r@[j]),
            forall|j1: int, j2: int| 0 <= j1 < j2 < r@.len() ==> r@[j1].offset < r@[j2].offset,
    {
        self.kernel.face_buffer.enumerate()
    }

    /// The canonical handles of all live edges, in offset order.
    pub fn edges(&self) -> (r: Vec<EdgeIndex>)
        requires
            self.wf(),
        ensures
            r@.len() == active_count(self.kernel.edge_buffer.slots()),
            forall|j: int| 0 <= j < r@.len() ==> self.live_edge(#[trigger] r@[j]),
            forall|j1: int, j2: int| 0 <= j1 < j2 < r@.len() ==> r@[j1].offset < r@[j2].offset,
    {
        self.kernel.edge_buffer.enumerate()
    }

    /// The canonical handles of all live vertices, in offset order.
    pub fn vertices(&self) -> (r: Vec<VertexIndex>)
        requires
            self.wf(),
        ensures
            r@.len() == active_count(self.kernel.vertex_buffer.slots()),
            forall|j: int| 0 <= j < r@.len() ==> self.live_vertex(#[trigger] r@[j]),
            forall|j1: int, j2: int| 0 <= j1 < j2 < r@.len() ==> r@[j1].offset < r@[j2].offset,
    {
        self.kernel.vertex_buffer.enumerate()
    }

    /// The canonical handles of all live points, in offset order.
    pub fn points(&self) -> (r: Vec<PointIndex>)
        requires
            self.wf(),
        ensures
            r@.len() == active_count(self.kernel.point_buffer.slots()),
            forall|j: int| 0 <= j < r@.len() ==> self.live_point(#[trigger] r@[j]),
            forall|j1: int, j2: int| 0 <= j1 < j2 < r@.len() ==> r@[j1].offset < r@[j2].offset,
    {
        self.kernel.point_buffer.enumerate()
    }
}

impl Default for Mesh {
    fn default() -> (r: Mesh)
        ensures
            r.wf(),
            r.tag == 1,
            active_count(r.kernel.edge_buffer.slots()) == 0,
            active_count(r.kernel.face_buffer.slots()) == 0,
            active_count(r.kernel.vertex_buffer.slots()) == 0,
            active_count(r.kernel.point_buffer.slots()) == 0,
            r.kernel.edge_buffer.slots().len() == 1,
            r.kernel.face_buffer.slots().len() == 1,
            r.kernel.vertex_buffer.slots().len() == 1,
            r.kernel.point_buffer.slots().len() == 1,
    {
        Mesh::new()
    }
}

impl AddElement<EdgeKind, Edge> for Mesh {
    open spec fn add_pre(&self) -> bool {
        self.wf() && self.kernel.edge_buffer.slots().len() < u32::MAX as int
    }

    fn add(&mut self, element: Edge) -> (h: EdgeIndex)
        ensures
            final(self).wf(),
            CompactableBuffer::added(old(self).kernel.edge_buffer,
                final(self).kernel.edge_buffer, element, h),
            final(self).kernel.face_buffer == old(self).kernel.face_buffer,
            final(self).kernel.vertex_buffer == old(self).kernel.vertex_buffer,
            final(self).kernel.point_buffer == old(self).kernel.point_buffer,
            final(self).tag == old(self).tag,
    {
        self.kernel.add(element)
    }
}

impl AddElement<FaceKind, Face> for Mesh {
    open spec fn add_pre(&self) -> bool {
        self.wf() && self.kernel.face_buffer.slots().len() < u32::MAX as int
    }

    fn add(&mut self, element: Face) -> (h: FaceIndex)
        ensures
            final(self).wf(),
            CompactableBuffer::added(old(self).kernel.face_buffer,
                final(self).kernel.face_buffer, element, h),
            final(self).kernel.edge_buffer == old(self).kernel.edge_buffer,
            final(self).kernel.vertex_buffer == old(self).kernel.vertex_buffer,
            final(self).kernel.point_buffer == old(self).kernel.point_buffer,
            final(self).tag == old(self).tag,
    {
        self.kernel.add(element)
    }
}

impl AddElement<VertexKind, Vertex> for Mesh {
    open spec fn add_pre(&self) -> bool {
        self.wf() && self.kernel.vertex_buffer.slots().len() < u32::MAX as int
    }

    fn add(&mut self, element: Vertex) -> (h: VertexIndex)
        ensures
            final(self).wf(),
            CompactableBuffer::added(old(self).kernel.vertex_buffer,
                final(self).kernel.vertex_buffer, element, h),
            final(self).kernel.edge_buffer == old(self).kernel.edge_buffer,
            final(self).kernel.face_buffer == old(self).kernel.face_buffer,
            final(self).kernel.point_buffer == old(self).kernel.point_buffer,
            final(self).tag == old(self).tag,
    {
        self.kernel.add(element)
    }
}

impl AddElement<PointKind, Point> for Mesh {
    open spec fn add_pre(&self) -> bool {
        self.wf() && self.kernel.point_buffer.slots().len() < u32::MAX as int
    }

    fn add(&mut self, element: Point) -> (h: PointIndex)
        ensures
            final(self).wf(),
            CompactableBuffer::added(old(self).kernel.point_buffer,
                final(self).kernel.point_buffer, element, h),
            final(self).kernel.edge_buffer == old(self).kernel.edge_buffer,
            final(self).kernel.face_buffer == old(self).kernel.face_buffer,
            final(self).kernel.vertex_buffer == old(self).kernel.vertex_buffer,
            final(self).tag == old(self).tag,
    {
        self.kernel.add(element)
    }
}

impl RemoveElement<EdgeKind> for Mesh {
    open spec fn remove_pre(&self) -> bool {
        self.wf()
    }

    fn remove(&mut self, index: EdgeIndex)
        ensures
            final(self).wf(),
            CompactableBuffer::removed(old(self).kernel.edge_buffer,
                final(self).kernel.edge_buffer, index),
            final(self).kernel.face_buffer == old(self).kernel.face_buffer,
            final(self).kernel.vertex_buffer == old(self).kernel.vertex_buffer,
            final(self).kernel.point_buffer == old(self).kernel.point_buffer,
            final(self).tag == old(self).tag,
    {
        self.kernel.remove(index)
    }
}

impl RemoveElement<FaceKind> for Mesh {
    open spec fn remove_pre(&self) -> bool {
        self.wf()
    }

    fn remove(&mut self, index: FaceIndex)
        ensures
            final(self).wf(),
            CompactableBuffer::removed(old(self).kernel.face_buffer,
                final(self).kernel.face_buffer, index),
            final(self).kernel.edge_buffer == old(self).kernel.edge_buffer,
            final(self).kernel.vertex_buffer == old(self).kernel.vertex_buffer,
            final(self).kernel.point_buffer == old(self).kernel.point_buffer,
            final(self).tag == old(self).tag,
    {
        self.kernel.remove(index)
    }
}

impl RemoveElement<VertexKind> for Mesh {
    open spec fn remove_pre(&self) -> bool {
        self.wf()
    }

    fn remove(&mut self, index: VertexIndex)
        ensures
            final(self).wf(),
            CompactableBuffer::removed(old(self).kernel.vertex_buffer,
                final(self).kernel.vertex_buffer, index),
            final(self).kernel.edge_buffer == old(self).kernel.edge_buffer,
            final(self).kernel.face_buffer == old(self).kernel.face_buffer,
            final(self).kernel.point_buffer == old(self).kernel.point_buffer,
            final(self).tag == old(self).tag,
    {
        self.kernel.remove(index)
    }
}

impl RemoveElement<PointKind> for Mesh {
    open spec fn remove_pre(&self) -> bool {
        self.wf()
    }

    fn remove(&mut self, index: PointIndex)
        ensures
            final(self).wf(),
            CompactableBuffer::removed(old(self).kernel.point_buffer,
                final(self).kernel.point_buffer, index),
            final(self).kernel.edge_buffer == old(self).kernel.edge_buffer,
            final(self).kernel.face_buffer == old(self).kernel.face_buffer,
            final(self).kernel.vertex_buffer == old(self).kernel.vertex_buffer,
            final(self).tag == old(self).tag,
    {
        self.kernel.remove(index)
    }
}

impl GetElement<EdgeKind, Edge> for Mesh {
    fn get(&self, index: &EdgeIndex) -> (r: Option<&Edge>)
        ensures
            r is Some <==> self.live_edge(*index),
            r matches Some(v) ==> *v == self.edge_at(*index),
    {
        self.kernel.get(index)
    }
}

impl GetElement<FaceKind, Face> for Mesh {
    fn get(&self, index: &FaceIndex) -> (r: Option<&Face>)
        ensures
            r is Some <==> self.live_face(*index),
            r matches Some(v) ==> *v == self.face_at(*index),
    {
        self.kernel.get(index)
    }
}

impl GetElement<VertexKind, Vertex> for Mesh {
    fn get(&self, index: &VertexIndex) -> (r: Option<&Vertex>)
        ensures
            r is Some <==> self.live_vertex(*index),
            r matches Some(v) ==> *v == self.vertex_at(*index),
    {
        self.kernel.get(index)
    }
}

impl GetElement<PointKind, Point> for Mesh {
    fn get(&self, index: &PointIndex) -> (r: Option<&Point>)
        ensures
            r is Some <==> self.live_point(*index),
            r matches Some(v) ==> *v == self.point_at(*index),
    {
        self.kernel.get(index)
    }
}

} // verus!
