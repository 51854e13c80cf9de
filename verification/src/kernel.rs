//! Storage interface for Mesh types: one compactable buffer per element
//! kind, a uniform add/remove/get surface over them, and the compaction
//! pass that drops every inactive slot while rewriting all cross-references
//! to the new dense layout.

use vstd::prelude::*;
use crate::buffer::{CompactableBuffer, Slot, active_count, active_prefix_seq, active_count_to};
use crate::elements::{Edge, Face, Point, Vertex};
use crate::handles::{
    EdgeIndex, EdgeKind, FaceIndex, FaceKind, Index, PointIndex, PointKind, VertexIndex,
    VertexKind, Offset, INVALID_COMPONENT_OFFSET,
};
use crate::traits::{AddElement, GetElement, RemoveElement};

verus! {

/// Rewrites one handle through a compaction remap table: the offset is
/// replaced by the slot's new offset (0 where the slot is gone or the
/// offset never was in range), the generation travels unchanged.
pub open spec fn spec_rewrite<K>(h: Index<K>, remap: Seq<Offset>) -> Index<K> {
    if (h.offset as int) < remap.len() {
        Index::spec_new(remap[h.offset as int], h.generation)
    } else {
        Index::spec_new(INVALID_COMPONENT_OFFSET, h.generation)
    }
}

fn rewrite_index<K>(h: Index<K>, remap: &Vec<Offset>) -> (r: Index<K>)
    ensures
        r == spec_rewrite(h, remap@),
{
    if (h.offset as usize) < remap.len() {
        Index::with_generation(remap[h.offset as usize], h.generation)
    } else {
        Index::with_generation(INVALID_COMPONENT_OFFSET, h.generation)
    }
}

/// An edge with every handle it holds rewritten through the remap table of
/// the buffer the handle points into.
pub open spec fn spec_rewrite_edge(
    e: Edge,
    edge_remap: Seq<Offset>,
    face_remap: Seq<Offset>,
    vertex_remap: Seq<Offset>,
) -> Edge {
    Edge {
        twin_index: spec_rewrite(e.twin_index, edge_remap),
        next_index: spec_rewrite(e.next_index, edge_remap),
        prev_index: spec_rewrite(e.prev_index, edge_remap),
        face_index: spec_rewrite(e.face_index, face_remap),
        vertex_index: spec_rewrite(e.vertex_index, vertex_remap),
    }
}

/// A face with its root edge rewritten.
pub open spec fn spec_rewrite_face(f: Face, edge_remap: Seq<Offset>) -> Face {
    Face { edge_index: spec_rewrite(f.edge_index, edge_remap) }
}

/// A vertex with its edge and point handles rewritten.
pub open spec fn spec_rewrite_vertex(
    v: Vertex,
    edge_remap: Seq<Offset>,
    point_remap: Seq<Offset>,
) -> Vertex {
    Vertex {
        edge_index: spec_rewrite(v.edge_index, edge_remap),
        point_index: spec_rewrite(v.point_index, point_remap),
    }
}

/// The remap table compaction produces for a buffer in this state: each
/// active slot goes to its rank among the active slots (counting from 1),
/// every other offset maps to the reserved offset 0.
pub open spec fn remap_of<E>(s: Seq<Slot<E>>) -> Seq<Offset> {
    Seq::new(s.len(), |o: int|
        if 1 <= o && s[o].props.status == crate::buffer::ElementStatus::ACTIVE {
            (active_count_to(s, o) + 1) as u32
        } else {
            0u32
        })
}

/// Storage interface for Mesh types.
#[derive(Debug)]
pub struct Kernel {
    pub edge_buffer: CompactableBuffer<EdgeKind, Edge>,
    pub face_buffer: CompactableBuffer<FaceKind, Face>,
    pub vertex_buffer: CompactableBuffer<VertexKind, Vertex>,
    pub point_buffer: CompactableBuffer<PointKind, Point>,
}

impl Kernel {
    /// All four buffers are well-formed.
    pub open spec fn wf(self) -> bool {
        &&& self.edge_buffer.wf()
        &&& self.face_buffer.wf()
        &&& self.vertex_buffer.wf()
        &&& self.point_buffer.wf()
    }

    pub fn edge_count(&self) -> (r: usize)
        requires
            self.wf(),
        ensures
            r == active_count(self.edge_buffer.slots()),
    {
        self.edge_buffer.len() - 1
    }

    pub fn face_count(&self) -> (r: usize)
        requires
            self.wf(),
        ensures
            r == active_count(self.face_buffer.slots()),
    {
        self.face_buffer.len() - 1
    }

    pub fn vertex_count(&self) -> (r: usize)
        requires
            self.wf(),
        ensures
            r == active_count(self.vertex_buffer.slots()),
    {
        self.vertex_buffer.len() - 1
    }

    pub fn point_count(&self) -> (r: usize)
        requires
            self.wf(),
        ensures
            r == active_count(self.point_buffer.slots()),
    {
        self.point_buffer.len() - 1
    }

    /// Whether a compaction pass would change anything: true as soon as one
    /// buffer carries an inactive cell.
    pub fn can_be_compacted(&self) -> (r: bool)
        requires
            self.wf(),
        ensures
            r == (self.edge_buffer.free().len() > 0 || self.face_buffer.free().len() > 0
                || self.vertex_buffer.free().len() > 0 || self.point_buffer.free().len() > 0),
    {
        self.edge_buffer.has_inactive_cells() || self.face_buffer.has_inactive_cells()
            || self.vertex_buffer.has_inactive_cells() || self.point_buffer.has_inactive_cells()
    }
}

/// A buffer's slots as compaction leaves them, before reference rewriting:
/// the reserved slot followed by the active slots in their old order.
pub open spec fn compacted<E>(s: Seq<Slot<E>>) -> Seq<Slot<E>> {
    seq![s[0]] + active_prefix_seq(s, s.len() as int)
}

impl Kernel {
    /// The edge slots a compaction of this kernel produces: the surviving
    /// edges in order, each with its handles rewritten to the new offsets.
    pub open spec fn compacted_edges(self) -> Seq<Slot<Edge>> {
        compacted(self.edge_buffer.slots()).map_values(|s: Slot<Edge>| Slot {
            props: s.props,
            value: spec_rewrite_edge(
                s.value,
                remap_of(self.edge_buffer.slots()),
                remap_of(self.face_buffer.slots()),
                remap_of(self.vertex_buffer.slots()),
            ),
        })
    }

    /// The face slots a compaction of this kernel produces.
    pub open spec fn compacted_faces(self) -> Seq<Slot<Face>> {
        compacted(self.face_buffer.slots()).map_values(|s: Slot<Face>| Slot {
            props: s.props,
            value: spec_rewrite_face(s.value, remap_of(self.edge_buffer.slots())),
        })
    }

    /// The vertex slots a compaction of this kernel produces.
    pub open spec fn compacted_vertices(self) -> Seq<Slot<Vertex>> {
        compacted(self.vertex_buffer.slots()).map_values(|s: Slot<Vertex>| Slot {
            props: s.props,
            value: spec_rewrite_vertex(
                s.value,
                remap_of(self.edge_buffer.slots()),
                remap_of(self.point_buffer.slots()),
            ),
        })
    }

    /// Removes every inactive slot from every buffer, moving the active
    /// elements to a dense prefix in their old order, and rewrites each
    /// cross-reference held by a surviving element to the referenced slot's
    /// new offset. Slot generations travel with their elements, so a
    /// reference that resolved before the pass resolves to the same element
    /// value afterwards, and one that did not still does not.
    #[verifier::rlimit(50)]
    pub fn compact(&mut self)
        requires
            old(self).wf(),
        ensures
            final(self).wf(),
            final(self).edge_buffer.free().len() == 0,
            final(self).face_buffer.free().len() == 0,
            final(self).vertex_buffer.free().len() == 0,
            final(self).point_buffer.free().len() == 0,
            active_count(final(self).edge_buffer.slots())
                == active_count(old(self).edge_buffer.slots()),
            active_count(final(self).face_buffer.slots())
                == active_count(old(self).face_buffer.slots()),
            active_count(final(self).vertex_buffer.slots())
                == active_count(old(self).vertex_buffer.slots()),
            active_count(final(self).point_buffer.slots())
                == active_count(old(self).point_buffer.slots()),
            final(self).edge_buffer.slots() == old(self).compacted_edges(),
            final(self).face_buffer.slots() == old(self).compacted_faces(),
            final(self).vertex_buffer.slots() == old(self).compacted_vertices(),
            final(self).point_buffer.slots() == compacted(old(self).point_buffer.slots()),
            forall|o: int| old(self).edge_buffer.active(o)
                ==> (#[trigger] final(self).edge_buffer.slots()[
                        remap_of(old(self).edge_buffer.slots())[o] as int
                    ]) == (Slot {
                        props: old(self).edge_buffer.slots()[o].props,
                        value: spec_rewrite_edge(
                            old(self).edge_buffer.slots()[o].value,
                            remap_of(old(self).edge_buffer.slots()),
                            remap_of(old(self).face_buffer.slots()),
                            remap_of(old(self).vertex_buffer.slots()),
                        ),
                    }),
            forall|o: int| old(self).face_buffer.active(o)
                ==> (#[trigger] final(self).face_buffer.slots()[
                        remap_of(old(self).face_buffer.slots())[o] as int
                    ]) == (Slot {
                        props: old(self).face_buffer.slots()[o].props,
                        value: spec_rewrite_face(
                            old(self).face_buffer.slots()[o].value,
                            remap_of(old(self).edge_buffer.slots()),
                        ),
                    }),
            forall|o: int| old(self).vertex_buffer.active(o)
                ==> (#[trigger] final(self).vertex_buffer.slots()[
                        remap_of(old(self).vertex_buffer.slots())[o] as int
                    ]) == (Slot {
                        props: old(self).vertex_buffer.slots()[o].props,
                        value: spec_rewrite_vertex(
                            old(self).vertex_buffer.slots()[o].value,
                            remap_of(old(self).edge_buffer.slots()),
                            remap_of(old(self).point_buffer.slots()),
                        ),
                    }),
            forall|o: int| old(self).point_buffer.active(o)
                ==> (#[trigger] final(self).point_buffer.slots()[
                        remap_of(old(self).point_buffer.slots())[o] as int
                    ]) == old(self).point_buffer.slots()[o],
    {
        let ghost old_edges = self.edge_buffer.slots();
        let ghost old_faces = self.face_buffer.slots();
        let ghost old_vertices = self.vertex_buffer.slots();
        let ghost old_points = self.point_buffer.slots();

        let face_remap = self.face_buffer.compact();
        let vertex_remap = self.vertex_buffer.compact();
        let edge_remap = self.edge_buffer.compact();
        let point_remap = self.point_buffer.compact();

        proof {
            assert(face_remap@ =~= remap_of(old_faces));
            assert(vertex_remap@ =~= remap_of(old_vertices));
            assert(edge_remap@ =~= remap_of(old_edges));
            assert(point_remap@ =~= remap_of(old_points));
        }

        let ghost mid_edges = self.edge_buffer.slots();
        let ghost mid_faces = self.face_buffer.slots();
        let ghost mid_vertices = self.vertex_buffer.slots();
        let ghost eb_mid = self.edge_buffer;
        let ghost vb_mid = self.vertex_buffer;
        let ghost pb_done = self.point_buffer;

        // Rewrite the root edge of every face.
        let mut o: usize = 0;
        while o < self.face_buffer.buffer.len()
            invariant
                self.face_buffer.wf(),
                o <= self.face_buffer.slots().len(),
                self.face_buffer.slots().len() == mid_faces.len(),
                self.face_buffer.free().len() == 0,
                self.edge_buffer == eb_mid,
                self.vertex_buffer == vb_mid,
                self.point_buffer == pb_done,
                edge_remap@ == remap_of(old_edges),
                forall|j: int| 0 <= j < o ==> #[trigger] self.face_buffer.slots()[j] == (Slot {
                    props: mid_faces[j].props,
                    value: spec_rewrite_face(mid_faces[j].value, remap_of(old_edges)),
                }),
                forall|j: int| o <= j < mid_faces.len()
                    ==> #[trigger] self.face_buffer.slots()[j] == mid_faces[j],
            decreases self.face_buffer.buffer.len() - o,
        {
            let f = self.face_buffer.buffer[o].value;
            let rewritten = Face { edge_index: rewrite_index(f.edge_index, &edge_remap) };
            self.face_buffer.set_value_at(o, rewritten);
            o = o + 1;
        }

        let ghost fb_done = self.face_buffer;

        // Rewrite the edge and point handles of every vertex.
        let mut o: usize = 0;
        while o < self.vertex_buffer.buffer.len()
            invariant
                self.vertex_buffer.wf(),
                o <= self.vertex_buffer.slots().len(),
                self.vertex_buffer.slots().len() == mid_vertices.len(),
                self.vertex_buffer.free().len() == 0,
                self.edge_buffer == eb_mid,
                self.face_buffer == fb_done,
                self.point_buffer == pb_done,
                edge_remap@ == remap_of(old_edges),
                point_remap@ == remap_of(old_points),
                forall|j: int| 0 <= j < o ==> #[trigger] self.vertex_buffer.slots()[j] == (Slot {
                    props: mid_vertices[j].props,
                    value: spec_rewrite_vertex(mid_vertices[j].value,
                        remap_of(old_edges), remap_of(old_points)),
                }),
                forall|j: int| o <= j < mid_vertices.len()
                    ==> #[trigger] self.vertex_buffer.slots()[j] == mid_vertices[j],
            decreases self.vertex_buffer.buffer.len() - o,
        {
            let v = self.vertex_buffer.buffer[o].value;
            let rewritten = Vertex {
                edge_index: rewrite_index(v.edge_index, &edge_remap),
                point_index: rewrite_index(v.point_index, &point_remap),
            };
            self.vertex_buffer.set_value_at(o, rewritten);
            o = o + 1;
        }

        let ghost vb_done = self.vertex_buffer;

        // Rewrite the five handles of every edge.
        let mut o: usize = 0;
        while o < self.edge_buffer.buffer.len()
            invariant
                self.edge_buffer.wf(),
                o <= self.edge_buffer.slots().len(),
                self.edge_buffer.slots().len() == mid_edges.len(),
                self.edge_buffer.free().len() == 0,
                self.face_buffer == fb_done,
                self.vertex_buffer == vb_done,
                self.point_buffer == pb_done,
                edge_remap@ == remap_of(old_edges),
                face_remap@ == remap_of(old_faces),
                vertex_remap@ == remap_of(old_vertices),
                forall|j: int| 0 <= j < o ==> #[trigger] self.edge_buffer.slots()[j] == (Slot {
                    props: mid_edges[j].props,
                    value: spec_rewrite_edge(mid_edges[j].value,
                        remap_of(old_edges), remap_of(old_faces), remap_of(old_vertices)),
                }),
                forall|j: int| o <= j < mid_edges.len()
                    ==> #[trigger] self.edge_buffer.slots()[j] == mid_edges[j],
            decreases self.edge_buffer.buffer.len() - o,
        {
            let e = self.edge_buffer.buffer[o].value;
            let rewritten = Edge {
                twin_index: rewrite_index(e.twin_index, &edge_remap),
                next_index: rewrite_index(e.next_index, &edge_remap),
                prev_index: rewrite_index(e.prev_index, &edge_remap),
                face_index: rewrite_index(e.face_index, &face_remap),
                vertex_index: rewrite_index(e.vertex_index, &vertex_remap),
            };
            self.edge_buffer.set_value_at(o, rewritten);
            o = o + 1;
        }

        proof {
            assert(mid_faces == compacted(old_faces));
            assert(mid_vertices == compacted(old_vertices));
            assert(mid_edges == compacted(old_edges));
            assert(self.face_buffer.slots() =~= old(self).compacted_faces());
            assert(self.vertex_buffer.slots() =~= old(self).compacted_vertices());
            assert(self.edge_buffer.slots() =~= old(self).compacted_edges());
        }
    }
}

impl Default for Kernel {
    /// A fresh kernel: each buffer holds only its reserved slot.
    fn default() -> (r: Kernel)
        ensures
            r.wf(),
            active_count(r.edge_buffer.slots()) == 0,
            active_count(r.face_buffer.slots()) == 0,
            active_count(r.vertex_buffer.slots()) == 0,
            active_count(r.point_buffer.slots()) == 0,
            r.edge_buffer.slots().len() == 1,
            r.face_buffer.slots().len() == 1,
            r.vertex_buffer.slots().len() == 1,
            r.point_buffer.slots().len() == 1,
    {
        Kernel {
            edge_buffer: CompactableBuffer::default(),
            face_buffer: CompactableBuffer::default(),
            vertex_buffer: CompactableBuffer::default(),
            point_buffer: CompactableBuffer::default(),
        }
    }
}

impl AddElement<EdgeKind, Edge> for Kernel {
    open spec fn add_pre(&self) -> bool {
        self.wf() && self.edge_buffer.slots().len() < u32::MAX as int
    }

    fn add(&mut self, element: Edge) -> (h: EdgeIndex)
        ensures
            final(self).wf(),
            CompactableBuffer::added(old(self).edge_buffer, final(self).edge_buffer, element, h),
            final(self).face_buffer == old(self).face_buffer,
            final(self).vertex_buffer == old(self).vertex_buffer,
            final(self).point_buffer == old(self).point_buffer,
    {
        self.edge_buffer.add(element)
    }
}

impl AddElement<FaceKind, Face> for Kernel {
    open spec fn add_pre(&self) -> bool {
        self.wf() && self.face_buffer.slots().len() < u32::MAX as int
    }

    fn add(&mut self, element: Face) -> (h: FaceIndex)
        ensures
            final(self).wf(),
            CompactableBuffer::added(old(self).face_buffer, final(self).face_buffer, element, h),
            final(self).edge_buffer == old(self).edge_buffer,
            final(self).vertex_buffer == old(self).vertex_buffer,
            final(self).point_buffer == old(self).point_buffer,
    {
        self.face_buffer.add(element)
    }
}

impl AddElement<VertexKind, Vertex> for Kernel {
    open spec fn add_pre(&self) -> bool {
        self.wf() && self.vertex_buffer.slots().len() < u32::MAX as int
    }

    fn add(&mut self, element: Vertex) -> (h: VertexIndex)
        ensures
            final(self).wf(),
            CompactableBuffer::added(old(self).vertex_buffer, final(self).vertex_buffer, element, h),
            final(self).edge_buffer == old(self).edge_buffer,
            final(self).face_buffer == old(self).face_buffer,
            final(self).point_buffer == old(self).point_buffer,
    {
        self.vertex_buffer.add(element)
    }
}

impl AddElement<PointKind, Point> for Kernel {
    open spec fn add_pre(&self) -> bool {
        self.wf() && self.point_buffer.slots().len() < u32::MAX as int
    }

    fn add(&mut self, element: Point) -> (h: PointIndex)
        ensures
            final(self).wf(),
            CompactableBuffer::added(old(self).point_buffer, final(self).point_buffer, element, h),
            final(self).edge_buffer == old(self).edge_buffer,
            final(self).face_buffer == old(self).face_buffer,
            final(self).vertex_buffer == old(self).vertex_buffer,
    {
        self.point_buffer.add(element)
    }
}

impl RemoveElement<EdgeKind> for Kernel {
    open spec fn remove_pre(&self) -> bool {
        self.wf()
    }

    fn remove(&mut self, index: EdgeIndex)
        ensures
            final(self).wf(),
            CompactableBuffer::removed(old(self).edge_buffer, final(self).edge_buffer, index),
            final(self).face_buffer == old(self).face_buffer,
            final(self).vertex_buffer == old(self).vertex_buffer,
            final(self).point_buffer == old(self).point_buffer,
    {
        self.edge_buffer.remove(index)
    }
}

impl RemoveElement<FaceKind> for Kernel {
    open spec fn remove_pre(&self) -> bool {
        self.wf()
    }

    fn remove(&mut self, index: FaceIndex)
        ensures
            final(self).wf(),
            CompactableBuffer::removed(old(self).face_buffer, final(self).face_buffer, index),
            final(self).edge_buffer == old(self).edge_buffer,
            final(self).vertex_buffer == old(self).vertex_buffer,
            final(self).point_buffer == old(self).point_buffer,
    {
        self.face_buffer.remove(index)
    }
}

impl RemoveElement<VertexKind> for Kernel {
    open spec fn remove_pre(&self) -> bool {
        self.wf()
    }

    fn remove(&mut self, index: VertexIndex)
        ensures
            final(self).wf(),
            CompactableBuffer::removed(old(self).vertex_buffer, final(self).vertex_buffer, index),
            final(self).edge_buffer == old(self).edge_buffer,
            final(self).face_buffer == old(self).face_buffer,
            final(self).point_buffer == old(self).point_buffer,
    {
        self.vertex_buffer.remove(index)
    }
}

impl RemoveElement<PointKind> for Kernel {
    open spec fn remove_pre(&self) -> bool {
        self.wf()
    }

    fn remove(&mut self, index: PointIndex)
        ensures
            final(self).wf(),
            CompactableBuffer::removed(old(self).point_buffer, final(self).point_buffer, index),
            final(self).edge_buffer == old(self).edge_buffer,
            final(self).face_buffer == old(self).face_buffer,
            final(self).vertex_buffer == old(self).vertex_buffer,
    {
        self.point_buffer.remove(index)
    }
}

impl GetElement<EdgeKind, Edge> for Kernel {
    fn get(&self, index: &EdgeIndex) -> (r: Option<&Edge>)
        ensures
            r is Some <==> self.edge_buffer.resolves(*index),
            r matches Some(v) ==> *v == self.edge_buffer.value_at(*index),
    {
        self.edge_buffer.get(index)
    }
}

impl GetElement<FaceKind, Face> for Kernel {
    fn get(&self, index: &FaceIndex) -> (r: Option<&Face>)
        ensures
            r is Some <==> self.face_buffer.resolves(*index),
            r matches Some(v) ==> *v == self.face_buffer.value_at(*index),
    {
        self.face_buffer.get(index)
    }
}

impl GetElement<VertexKind, Vertex> for Kernel {
    fn get(&self, index: &VertexIndex) -> (r: Option<&Vertex>)
        ensures
            r is Some <==> self.vertex_buffer.resolves(*index),
            r matches Some(v) ==> *v == self.vertex_buffer.value_at(*index),
    {
        self.vertex_buffer.get(index)
    }
}

impl GetElement<PointKind, Point> for Kernel {
    fn get(&self, index: &PointIndex) -> (r: Option<&Point>)
        ensures
            r is Some <==> self.point_buffer.resolves(*index),
            r matches Some(v) ==> *v == self.point_buffer.value_at(*index),
    {
        self.point_buffer.get(index)
    }
}

} // verus!
