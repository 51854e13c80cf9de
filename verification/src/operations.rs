//! Building whole faces out of the wiring primitives: a face from a ring of
//! points, a face grown out of an existing boundary edge, and a triangle
//! closed over two existing edges.

use vstd::prelude::*;
use crate::buffer::active_count;
use crate::elements::{Edge, Face, Vertex};
use crate::handles::{EdgeIndex, FaceIndex, Index, PointIndex, VertexIndex};
use crate::mesh::{invalid, Mesh};
use crate::traits::{AddElement, MakeFace};
use crate::utils::{
    assign_face_to_loop, build_full_edge, build_full_edge_from, close_edge_loop, connect_edges,
    set_edge_face,
};
use crate::handles::{ComponentID, Handle};

verus! {

/// When creating a triangle from only two edges, this explains how to
/// interpret the provided edges: which two sides of the triangle they are.
#[derive(Debug, Clone, Copy, PartialEq, Eq, Structural)]
pub enum EdgeOrder {
    AB,
    AC,
    BC,
}

/// What a freshly built face ring looks like: walking `next` from the root
/// for as many steps as there are points reproduces the face's closed loop,
/// the loop's edges leave vertices carrying the given points in order, each
/// loop edge and its twin are mutual and distinct (the ring's twin pairs),
/// and the whole ring is boundary.
#[verifier::opaque]
pub open spec fn face_ring_spec(m: Mesh, f: FaceIndex, points: Seq<PointIndex>) -> bool {
    let s = crate::mesh::next_chain(m, m.root_edge_spec(f), points.len() as nat);
    &&& m.face_loop(f, s)
    &&& (forall|i: int| 0 <= i < s.len() ==> {
        let v = (#[trigger] m.edge_at(s[i])).vertex_index;
        &&& m.live_vertex(v)
        &&& m.vertex_at(v).point_index == points[i]
    })
    &&& (forall|i: int| 0 <= i < s.len() ==> {
        let t = (#[trigger] m.edge_at(s[i])).twin_index;
        &&& m.live_edge(t)
        &&& m.edge_at(t).twin_index == s[i]
        &&& t.offset != s[i].offset
    })
    &&& (forall|i: int| 0 <= i < s.len() ==> #[trigger] m.boundary_spec(s[i]))
    &&& (forall|i: int| 0 <= i < s.len()
            ==> (#[trigger] m.kernel.edge_buffer.slots()[s[i].offset as int]).props.tag == 0)
}

/// What a face built over existing vertices looks like: walking `next` from
/// the root for as many steps as there are vertices reproduces the face's
/// closed loop, the loop's edges leave the given vertices in order, each
/// loop edge and its twin are mutual and distinct, and the whole ring is
/// boundary.
#[verifier::opaque]
pub open spec fn vertex_ring_spec(m: Mesh, f: FaceIndex, verts: Seq<VertexIndex>) -> bool {
    let s = crate::mesh::next_chain(m, m.root_edge_spec(f), verts.len() as nat);
    &&& m.face_loop(f, s)
    &&& (forall|i: int| 0 <= i < s.len()
            ==> (#[trigger] m.edge_at(s[i])).vertex_index == verts[i])
    &&& (forall|i: int| 0 <= i < s.len() ==> {
        let t = (#[trigger] m.edge_at(s[i])).twin_index;
        &&& m.live_edge(t)
        &&& m.edge_at(t).twin_index == s[i]
        &&& t.offset != s[i].offset
    })
    &&& (forall|i: int| 0 <= i < s.len() ==> #[trigger] m.boundary_spec(s[i]))
    &&& (forall|i: int| 0 <= i < s.len()
            ==> (#[trigger] m.kernel.edge_buffer.slots()[s[i].offset as int]).props.tag == 0)
}

impl Mesh {
    /// What `add_face` asks of its callers: a mesh in shape, at least three
    /// points, and room in the buffers for one face, one vertex per point
    /// and two half-edges per point.
    pub open spec fn add_face_pre(self, points: Seq<PointIndex>) -> bool {
        &&& self.wf()
        &&& points.len() >= 3
        &&& self.kernel.face_buffer.slots().len() < u32::MAX as int
        &&& self.kernel.vertex_buffer.slots().len() + points.len() < u32::MAX as int
        &&& self.kernel.edge_buffer.slots().len() + 2 * points.len() < u32::MAX as int
    }

    /// Builds a face over the given ring of points: one vertex per point,
    /// one half-edge pair per ring side, the loop of outgoing edges wired
    /// closed and owned by a fresh face whose root is the loop's first edge.
    /// Each new edge's twin stays outside any face, so the whole ring is
    /// boundary.
    #[verifier::rlimit(50)]
    #[verifier::spinoff_prover]
    pub fn add_face(&mut self, points: &[PointIndex]) -> (f: FaceIndex)
        requires
            old(self).add_face_pre(points@),
        ensures
            final(self).wf(),
            final(self).tag == old(self).tag,
            final(self).kernel.point_buffer == old(self).kernel.point_buffer,
            final(self).live_face(f),
            active_count(final(self).kernel.face_buffer.slots())
                == active_count(old(self).kernel.face_buffer.slots()) + 1,
            active_count(final(self).kernel.vertex_buffer.slots())
                == active_count(old(self).kernel.vertex_buffer.slots()) + points@.len(),
            active_count(final(self).kernel.edge_buffer.slots())
                == active_count(old(self).kernel.edge_buffer.slots()) + 2 * points@.len(),
            final(self).kernel.edge_buffer.slots().len()
                >= old(self).kernel.edge_buffer.slots().len(),
            final(self).kernel.edge_buffer.slots().len()
                <= old(self).kernel.edge_buffer.slots().len() + 2 * points@.len(),
            final(self).kernel.vertex_buffer.slots().len()
                >= old(self).kernel.vertex_buffer.slots().len(),
            final(self).kernel.vertex_buffer.slots().len()
                <= old(self).kernel.vertex_buffer.slots().len() + points@.len(),
            final(self).kernel.face_buffer.slots().len()
                >= old(self).kernel.face_buffer.slots().len(),
            final(self).kernel.face_buffer.slots().len()
                <= old(self).kernel.face_buffer.slots().len() + 1,
            forall|o: int| old(self).kernel.edge_buffer.active(o)
                ==> #[trigger] final(self).kernel.edge_buffer.slots()[o]
                    == old(self).kernel.edge_buffer.slots()[o],
            forall|o: int| old(self).kernel.vertex_buffer.active(o)
                ==> #[trigger] final(self).kernel.vertex_buffer.slots()[o]
                    == old(self).kernel.vertex_buffer.slots()[o],
            forall|o: int| old(self).kernel.face_buffer.active(o)
                ==> #[trigger] final(self).kernel.face_buffer.slots()[o]
                    == old(self).kernel.face_buffer.slots()[o],
            face_ring_spec(*final(self), f, points@),
    {
        let (verts, es, twins) = self.build_ring(points);
        let ghost mb = *self;
        let root = es[0];
        let f = self.add(Face::new(root));
        let ghost mf = *self;
        self.claim_ring(&es, Ghost(twins@), f);
        proof {
            assert(mf.kernel.edge_buffer == mb.kernel.edge_buffer);
            assert(mf.kernel.vertex_buffer == mb.kernel.vertex_buffer);
            assert(self.kernel.vertex_buffer == mf.kernel.vertex_buffer);
            assert(self.kernel.face_buffer == mf.kernel.face_buffer);
            assert(mf.live_face(f));
            assert(mf.face_at(f) == (Face { edge_index: root }));
            assert(root == es@[0]);
            assert forall|o: int| old(self).kernel.edge_buffer.active(o)
                implies #[trigger] self.kernel.edge_buffer.slots()[o]
                    == old(self).kernel.edge_buffer.slots()[o] by {
                assert(mb.kernel.edge_buffer.slots()[o]
                    == old(self).kernel.edge_buffer.slots()[o]);
                assert(mf.kernel.edge_buffer.slots()[o] == mb.kernel.edge_buffer.slots()[o]);
                assert forall|k: int| 0 <= k < es@.len()
                    implies (#[trigger] es@[k]).offset != o by {
                    assert(!old(self).kernel.edge_buffer.active(es@[k].offset as int));
                }
                assert(self.kernel.edge_buffer.slots()[o]
                    == mf.kernel.edge_buffer.slots()[o]);
            }
            assert forall|o: int| old(self).kernel.face_buffer.active(o)
                implies #[trigger] self.kernel.face_buffer.slots()[o]
                    == old(self).kernel.face_buffer.slots()[o] by {
                assert(mb.kernel.face_buffer.slots()[o]
                    == old(self).kernel.face_buffer.slots()[o]);
                assert(mb.kernel.face_buffer.active(o));
                assert(mf.kernel.face_buffer.slots()[o] == mb.kernel.face_buffer.slots()[o]);
            }
            assert forall|k: int| 0 <= k < es@.len() implies
                (#[trigger] mb.kernel.edge_buffer.slots()[es@[k].offset as int]).props.tag
                    == 0 by {}
            assert forall|o: int| 0 <= o < mb.kernel.edge_buffer.slots().len() implies
                (#[trigger] self.kernel.edge_buffer.slots()[o]).props
                    == mb.kernel.edge_buffer.slots()[o].props by {
                assert(self.kernel.edge_buffer.slots()[o].props
                    == mf.kernel.edge_buffer.slots()[o].props);
            }
            lemma_assemble_ring(mb, mf, *self, points@, verts@, es@, twins@, f);
            lemma_ring_chain(*self, f, points@, es@);
        }
        f
    }

    /// Creates the whole unclaimed ring in one go: fresh vertices over the
    /// points, fresh mutually adjacent edge pairs, and the outgoing edges
    /// wired into a closed loop that no face owns yet.
    #[verifier::rlimit(50)]
    #[verifier::spinoff_prover]
    pub(crate) fn build_ring(&mut self, points: &[PointIndex])
        -> (r: (Vec<VertexIndex>, Vec<EdgeIndex>, Ghost<Seq<EdgeIndex>>))
        requires
            old(self).add_face_pre(points@),
        ensures
            final(self).wf(),
            final(self).tag == old(self).tag,
            final(self).kernel.point_buffer == old(self).kernel.point_buffer,
            final(self).kernel.face_buffer == old(self).kernel.face_buffer,
            active_count(final(self).kernel.vertex_buffer.slots())
                == active_count(old(self).kernel.vertex_buffer.slots()) + points@.len(),
            active_count(final(self).kernel.edge_buffer.slots())
                == active_count(old(self).kernel.edge_buffer.slots()) + 2 * points@.len(),
            final(self).kernel.edge_buffer.slots().len()
                >= old(self).kernel.edge_buffer.slots().len(),
            final(self).kernel.edge_buffer.slots().len()
                <= old(self).kernel.edge_buffer.slots().len() + 2 * points@.len(),
            final(self).kernel.vertex_buffer.slots().len()
                >= old(self).kernel.vertex_buffer.slots().len(),
            final(self).kernel.vertex_buffer.slots().len()
                <= old(self).kernel.vertex_buffer.slots().len() + points@.len(),
            forall|o: int| old(self).kernel.edge_buffer.active(o)
                ==> #[trigger] final(self).kernel.edge_buffer.slots()[o]
                    == old(self).kernel.edge_buffer.slots()[o],
            forall|o: int| old(self).kernel.vertex_buffer.active(o)
                ==> #[trigger] final(self).kernel.vertex_buffer.slots()[o]
                    == old(self).kernel.vertex_buffer.slots()[o],
            forall|k: int| 0 <= k < r.1@.len()
                ==> !old(self).kernel.edge_buffer.active((#[trigger] r.1@[k]).offset as int),
            forall|k: int| 0 <= k < r.2@.len()
                ==> !old(self).kernel.edge_buffer.active((#[trigger] r.2@[k]).offset as int),
            forall|k: int| 0 <= k < r.1@.len()
                ==> (#[trigger] final(self).kernel.edge_buffer.slots()[
                    r.1@[k].offset as int]).props.tag == 0,
            ({
                let (verts, es, twins) = (r.0@, r.1@, r.2@);
                &&& verts.len() == points@.len()
                &&& es.len() == points@.len()
                &&& twins.len() == points@.len()
                &&& (forall|k: int| 0 <= k < verts.len()
                        ==> final(self).live_vertex(#[trigger] verts[k]))
                &&& (forall|k: int| 0 <= k < verts.len()
                        ==> (#[trigger] final(self).vertex_at(verts[k])).point_index
                            == points@[k])
                &&& (forall|k: int| 0 <= k < es.len()
                        ==> final(self).live_edge(#[trigger] es[k]))
                &&& (forall|k: int| 0 <= k < es.len()
                        ==> final(self).live_edge(#[trigger] twins[k]))
                &&& (forall|k: int| 0 <= k < es.len()
                        ==> (#[trigger] final(self).edge_at(es[k])) == (Edge {
                            twin_index: twins[k],
                            next_index: es[if k + 1 == es.len() { 0int } else { k + 1 }],
                            prev_index: es[if k == 0 { es.len() - 1 } else { k - 1 }],
                            face_index: invalid(),
                            vertex_index: verts[k],
                        }))
                &&& (forall|k: int| 0 <= k < es.len()
                        ==> (#[trigger] final(self).edge_at(twins[k])) == (Edge {
                            twin_index: es[k],
                            next_index: invalid(),
                            prev_index: invalid(),
                            face_index: invalid(),
                            vertex_index: verts[if k + 1 == es.len() { 0int } else { k + 1 }],
                        }))
                &&& (forall|j1: int, j2: int| 0 <= j1 < j2 < es.len()
                        ==> es[j1].offset != es[j2].offset)
                &&& (forall|j1: int, j2: int| 0 <= j1 < es.len() && 0 <= j2 < twins.len()
                        ==> es[j1].offset != twins[j2].offset)
            }),
    {
        let verts = self.ring_vertices(points);
        let ghost after_verts = *self;
        let (es, twins) = self.wire_ring(&verts);
        proof {
            assert forall|k: int| 0 <= k < verts@.len() implies
                (#[trigger] self.vertex_at(verts@[k])).point_index == points@[k] by {
                assert(self.vertex_at(verts@[k]).point_index
                    == after_verts.vertex_at(verts@[k]).point_index);
                assert(after_verts.vertex_at(verts@[k]).point_index == points@[k]);
            }
            assert forall|o: int| old(self).kernel.vertex_buffer.active(o)
                implies #[trigger] self.kernel.vertex_buffer.slots()[o]
                    == old(self).kernel.vertex_buffer.slots()[o] by {
                assert(after_verts.kernel.vertex_buffer.slots()[o]
                    == old(self).kernel.vertex_buffer.slots()[o]);
                assert(after_verts.kernel.vertex_buffer.active(o));
                assert forall|k: int| 0 <= k < verts@.len()
                    implies (#[trigger] verts@[k]).offset != o by {
                    assert(!old(self).kernel.vertex_buffer.active(verts@[k].offset as int));
                }
                assert(self.kernel.vertex_buffer.slots()[o]
                    == after_verts.kernel.vertex_buffer.slots()[o]);
            }
            assert forall|o: int| old(self).kernel.edge_buffer.active(o)
                implies #[trigger] self.kernel.edge_buffer.slots()[o]
                    == old(self).kernel.edge_buffer.slots()[o] by {
                assert(after_verts.kernel.edge_buffer == old(self).kernel.edge_buffer);
                assert(after_verts.kernel.edge_buffer.active(o));
            }
        }
        (verts, es, twins)
    }

    /// Wires a fresh, unclaimed ring of edge pairs through the given
    /// vertices: `es[k]` leaves `verts[k]` for the next vertex around, the
    /// outgoing edges form a closed loop that no face owns yet, and each
    /// twin stays unwired on the outside.
    #[verifier::rlimit(50)]
    #[verifier::spinoff_prover]
    pub(crate) fn wire_ring(&mut self, verts: &Vec<VertexIndex>)
        -> (r: (Vec<EdgeIndex>, Ghost<Seq<EdgeIndex>>))
        requires
            old(self).wf(),
            verts@.len() >= 3,
            old(self).kernel.edge_buffer.slots().len() + 2 * verts@.len() < u32::MAX as int,
            forall|k: int| 0 <= k < verts@.len() ==> old(self).live_vertex(#[trigger] verts@[k]),
        ensures
            final(self).wf(),
            final(self).tag == old(self).tag,
            final(self).kernel.point_buffer == old(self).kernel.point_buffer,
            final(self).kernel.face_buffer == old(self).kernel.face_buffer,
            active_count(final(self).kernel.vertex_buffer.slots())
                == active_count(old(self).kernel.vertex_buffer.slots()),
            active_count(final(self).kernel.edge_buffer.slots())
                == active_count(old(self).kernel.edge_buffer.slots()) + 2 * verts@.len(),
            final(self).kernel.edge_buffer.slots().len()
                >= old(self).kernel.edge_buffer.slots().len(),
            final(self).kernel.edge_buffer.slots().len()
                <= old(self).kernel.edge_buffer.slots().len() + 2 * verts@.len(),
            final(self).kernel.vertex_buffer.slots().len()
                == old(self).kernel.vertex_buffer.slots().len(),
            forall|o: int| old(self).kernel.edge_buffer.active(o)
                ==> #[trigger] final(self).kernel.edge_buffer.slots()[o]
                    == old(self).kernel.edge_buffer.slots()[o],
            forall|o: int| old(self).kernel.vertex_buffer.active(o)
                && (forall|k: int| 0 <= k < verts@.len()
                    ==> (#[trigger] verts@[k]).offset != o)
                ==> #[trigger] final(self).kernel.vertex_buffer.slots()[o]
                    == old(self).kernel.vertex_buffer.slots()[o],
            forall|k: int| 0 <= k < r.0@.len()
                ==> !old(self).kernel.edge_buffer.active((#[trigger] r.0@[k]).offset as int),
            forall|k: int| 0 <= k < r.1@.len()
                ==> !old(self).kernel.edge_buffer.active((#[trigger] r.1@[k]).offset as int),
            forall|k: int| 0 <= k < r.0@.len()
                ==> (#[trigger] final(self).kernel.edge_buffer.slots()[
                    r.0@[k].offset as int]).props.tag == 0,
            forall|k: int| 0 <= k < r.1@.len()
                ==> (#[trigger] final(self).kernel.edge_buffer.slots()[
                    r.1@[k].offset as int]).props.tag == 0,
            ({
                let (es, twins) = (r.0@, r.1@);
                &&& es.len() == verts@.len()
                &&& twins.len() == verts@.len()
                &&& (forall|k: int| 0 <= k < verts@.len()
                        ==> final(self).live_vertex(#[trigger] verts@[k]))
                &&& (forall|k: int| 0 <= k < verts@.len()
                        ==> (#[trigger] final(self).vertex_at(verts@[k])).point_index
                            == old(self).vertex_at(verts@[k]).point_index)
                &&& (forall|k: int| 0 <= k < es.len()
                        ==> final(self).live_edge(#[trigger] es[k]))
                &&& (forall|k: int| 0 <= k < es.len()
                        ==> final(self).live_edge(#[trigger] twins[k]))
                &&& (forall|k: int| 0 <= k < es.len()
                        ==> (#[trigger] final(self).edge_at(es[k])) == (Edge {
                            twin_index: twins[k],
                            next_index: es[if k + 1 == es.len() { 0int } else { k + 1 }],
                            prev_index: es[if k == 0 { es.len() - 1 } else { k - 1 }],
                            face_index: invalid(),
                            vertex_index: verts@[k],
                        }))
                &&& (forall|k: int| 0 <= k < es.len()
                        ==> (#[trigger] final(self).edge_at(twins[k])) == (Edge {
                            twin_index: es[k],
                            next_index: invalid(),
                            prev_index: invalid(),
                            face_index: invalid(),
                            vertex_index: verts@[if k + 1 == es.len() { 0int } else { k + 1 }],
                        }))
                &&& (forall|j1: int, j2: int| 0 <= j1 < j2 < es.len()
                        ==> es[j1].offset != es[j2].offset)
                &&& (forall|j1: int, j2: int| 0 <= j1 < es.len() && 0 <= j2 < twins.len()
                        ==> es[j1].offset != twins[j2].offset)
            }),
    {
        let (es, twins) = self.ring_edges(verts);
        let ghost after_pairs = *self;
        self.connect_ring(&es, Ghost(twins@));
        proof {
            assert forall|o: int| old(self).kernel.edge_buffer.active(o)
                implies #[trigger] self.kernel.edge_buffer.slots()[o]
                    == old(self).kernel.edge_buffer.slots()[o] by {
                assert(after_pairs.kernel.edge_buffer.slots()[o]
                    == old(self).kernel.edge_buffer.slots()[o]);
                assert forall|k: int| 0 <= k < es@.len()
                    implies (#[trigger] es@[k]).offset != o by {
                    assert(!old(self).kernel.edge_buffer.active(es@[k].offset as int));
                }
                assert(self.kernel.edge_buffer.slots()[o]
                    == after_pairs.kernel.edge_buffer.slots()[o]);
            }
            assert forall|k: int| 0 <= k < es@.len() implies
                (#[trigger] self.kernel.edge_buffer.slots()[
                    es@[k].offset as int]).props.tag == 0 by {
                assert(self.kernel.edge_buffer.slots()[es@[k].offset as int].props
                    == after_pairs.kernel.edge_buffer.slots()[es@[k].offset as int].props);
            }
            assert forall|k: int| 0 <= k < twins@.len() implies
                (#[trigger] self.kernel.edge_buffer.slots()[
                    twins@[k].offset as int]).props.tag == 0 by {
                assert(self.kernel.edge_buffer.slots()[twins@[k].offset as int].props
                    == after_pairs.kernel.edge_buffer.slots()[twins@[k].offset as int].props);
                assert forall|k2: int| 0 <= k2 < es@.len()
                    implies (#[trigger] es@[k2]).offset != twins@[k].offset as int by {}
            }
            let n = es@.len() as int;
            assert forall|k: int| 0 <= k < n implies
                (#[trigger] self.edge_at(es@[k])) == (Edge {
                    twin_index: twins@[k],
                    next_index: es@[if k + 1 == n { 0int } else { k + 1 }],
                    prev_index: es@[if k == 0 { n - 1 } else { k - 1 }],
                    face_index: invalid(),
                    vertex_index: verts@[k],
                })
                && (#[trigger] self.edge_at(twins@[k])) == (Edge {
                    twin_index: es@[k],
                    next_index: invalid(),
                    prev_index: invalid(),
                    face_index: invalid(),
                    vertex_index: verts@[if k + 1 == n { 0int } else { k + 1 }],
                }) by {
                assert(after_pairs.edge_at(es@[k]) == (Edge {
                    twin_index: twins@[k],
                    next_index: invalid(),
                    prev_index: invalid(),
                    face_index: invalid(),
                    vertex_index: verts@[k],
                }));
                assert(self.edge_at(twins@[k]) == after_pairs.edge_at(twins@[k]));
            }
            assert forall|k: int| 0 <= k < verts@.len() implies
                self.live_vertex(#[trigger] verts@[k])
                && self.vertex_at(verts@[k]).point_index
                    == old(self).vertex_at(verts@[k]).point_index by {
                assert(self.kernel.vertex_buffer == after_pairs.kernel.vertex_buffer);
                assert(after_pairs.live_vertex(verts@[k]));
                assert(after_pairs.vertex_at(verts@[k]).point_index
                    == old(self).vertex_at(verts@[k]).point_index);
            }
        }
        (es, Ghost(twins@))
    }

    /// One fresh vertex per point, in order, each carrying its point and no
    /// outgoing edge yet.
    #[verifier::rlimit(50)]
    #[verifier::spinoff_prover]
    pub(crate) fn ring_vertices(&mut self, points: &[PointIndex]) -> (verts: Vec<VertexIndex>)
        requires
            old(self).wf(),
            old(self).kernel.vertex_buffer.slots().len() + points@.len() < u32::MAX as int,
        ensures
            final(self).wf(),
            final(self).tag == old(self).tag,
            final(self).kernel.edge_buffer == old(self).kernel.edge_buffer,
            final(self).kernel.face_buffer == old(self).kernel.face_buffer,
            final(self).kernel.point_buffer == old(self).kernel.point_buffer,
            active_count(final(self).kernel.vertex_buffer.slots())
                == active_count(old(self).kernel.vertex_buffer.slots()) + points@.len(),
            final(self).kernel.vertex_buffer.slots().len()
                >= old(self).kernel.vertex_buffer.slots().len(),
            final(self).kernel.vertex_buffer.slots().len()
                <= old(self).kernel.vertex_buffer.slots().len() + points@.len(),
            forall|o: int| old(self).kernel.vertex_buffer.active(o)
                ==> #[trigger] final(self).kernel.vertex_buffer.slots()[o]
                    == old(self).kernel.vertex_buffer.slots()[o],
            forall|k: int| 0 <= k < verts@.len()
                ==> !old(self).kernel.vertex_buffer.active((#[trigger] verts@[k]).offset as int),
            verts@.len() == points@.len(),
            forall|j: int| 0 <= j < verts@.len() ==> final(self).live_vertex(#[trigger] verts@[j]),
            forall|j: int| 0 <= j < verts@.len()
                ==> (#[trigger] final(self).vertex_at(verts@[j])).point_index == points@[j],
    {
        let n = points.len();
        let ghost m0 = *self;
        let mut verts: Vec<VertexIndex> = Vec::new();
        let mut i: usize = 0;
        while i < n
            invariant
                self.wf(),
                self.tag == m0.tag,
                n == points@.len(),
                i <= n,
                self.kernel.edge_buffer == m0.kernel.edge_buffer,
                self.kernel.face_buffer == m0.kernel.face_buffer,
                self.kernel.point_buffer == m0.kernel.point_buffer,
                m0.kernel.vertex_buffer.slots().len() + n < u32::MAX as int,
                verts@.len() == i,
                self.kernel.vertex_buffer.slots().len()
                    <= m0.kernel.vertex_buffer.slots().len() + i,
                self.kernel.vertex_buffer.slots().len()
                    >= m0.kernel.vertex_buffer.slots().len(),
                active_count(self.kernel.vertex_buffer.slots())
                    == active_count(m0.kernel.vertex_buffer.slots()) + i,
                forall|o: int| m0.kernel.vertex_buffer.active(o)
                    ==> #[trigger] self.kernel.vertex_buffer.slots()[o]
                        == m0.kernel.vertex_buffer.slots()[o],
                forall|j: int| 0 <= j < i
                    ==> !m0.kernel.vertex_buffer.active((#[trigger] verts@[j]).offset as int),
                forall|j: int| 0 <= j < i ==> self.live_vertex(#[trigger] verts@[j]),
                forall|j: int| 0 <= j < i ==> (#[trigger] self.vertex_at(verts@[j]))
                    == (Vertex { edge_index: invalid(), point_index: points@[j] }),
            decreases n - i,
        {
            let ghost pre = *self;
            let element = Vertex::from_point(points[i]);
            assert(element == (Vertex { edge_index: invalid(), point_index: points@[i as int] }));
            let v = self.add(element);
            assert(self.vertex_at(v) == element);
            verts.push(v);
            proof {
                assert forall|j: int| 0 <= j < i + 1 implies
                    self.live_vertex(#[trigger] verts@[j])
                    && self.vertex_at(verts@[j])
                        == (Vertex { edge_index: invalid(), point_index: points@[j] }) by {
                    if j < i {
                        assert(pre.live_vertex(verts@[j]));
                        assert(verts@[j].offset != v.offset);
                        assert(self.kernel.vertex_buffer.slots()[verts@[j].offset as int]
                            == pre.kernel.vertex_buffer.slots()[verts@[j].offset as int]);
                        assert(self.kernel.vertex_buffer.slots().len()
                            >= pre.kernel.vertex_buffer.slots().len());
                        assert(self.live_vertex(verts@[j]));
                        assert(self.vertex_at(verts@[j]) == pre.vertex_at(verts@[j]));
                    } else {
                        assert(verts@[j] == v);
                        assert(self.live_vertex(v));
                        assert(self.vertex_at(verts@[j]) == element);
                    }
                }
                assert forall|o: int| m0.kernel.vertex_buffer.active(o)
                    implies #[trigger] self.kernel.vertex_buffer.slots()[o]
                        == m0.kernel.vertex_buffer.slots()[o] by {
                    assert(pre.kernel.vertex_buffer.slots()[o]
                        == m0.kernel.vertex_buffer.slots()[o]);
                    assert(pre.kernel.vertex_buffer.active(o));
                    assert(o != v.offset);
                }
                assert forall|j: int| 0 <= j < i + 1 implies
                    !m0.kernel.vertex_buffer.active((#[trigger] verts@[j]).offset as int) by {
                    if j == i {
                        if m0.kernel.vertex_buffer.active(v.offset as int) {
                            assert(pre.kernel.vertex_buffer.slots()[v.offset as int]
                                == m0.kernel.vertex_buffer.slots()[v.offset as int]);
                            assert(false);
                        }
                    }
                }
            }
            i = i + 1;
        }
        verts
    }

    /// One fresh, mutually adjacent edge pair per ring side: the returned
    /// edge `es[j]` leaves `verts[j]`, its twin leaves the next vertex
    /// around the ring, and nothing is wired into loops or faces yet.
    #[verifier::rlimit(50)]
    #[verifier::spinoff_prover]
    pub(crate) fn ring_edges(&mut self, verts: &Vec<VertexIndex>) -> (r: (Vec<EdgeIndex>, Ghost<Seq<EdgeIndex>>))
        requires
            old(self).wf(),
            verts@.len() >= 3,
            old(self).kernel.edge_buffer.slots().len() + 2 * verts@.len() < u32::MAX as int,
            forall|j: int| 0 <= j < verts@.len() ==> old(self).live_vertex(#[trigger] verts@[j]),
        ensures
            final(self).wf(),
            final(self).tag == old(self).tag,
            final(self).kernel.face_buffer == old(self).kernel.face_buffer,
            final(self).kernel.point_buffer == old(self).kernel.point_buffer,
            active_count(final(self).kernel.edge_buffer.slots())
                == active_count(old(self).kernel.edge_buffer.slots()) + 2 * verts@.len(),
            active_count(final(self).kernel.vertex_buffer.slots())
                == active_count(old(self).kernel.vertex_buffer.slots()),
            final(self).kernel.edge_buffer.slots().len()
                >= old(self).kernel.edge_buffer.slots().len(),
            final(self).kernel.edge_buffer.slots().len()
                <= old(self).kernel.edge_buffer.slots().len() + 2 * verts@.len(),
            forall|o: int| old(self).kernel.edge_buffer.active(o)
                ==> #[trigger] final(self).kernel.edge_buffer.slots()[o]
                    == old(self).kernel.edge_buffer.slots()[o],
            final(self).kernel.vertex_buffer.slots().len()
                == old(self).kernel.vertex_buffer.slots().len(),
            forall|o: int| old(self).kernel.vertex_buffer.active(o)
                && (forall|k: int| 0 <= k < verts@.len()
                    ==> (#[trigger] verts@[k]).offset != o)
                ==> #[trigger] final(self).kernel.vertex_buffer.slots()[o]
                    == old(self).kernel.vertex_buffer.slots()[o],
            forall|k: int| 0 <= k < r.0@.len()
                ==> !old(self).kernel.edge_buffer.active((#[trigger] r.0@[k]).offset as int),
            forall|k: int| 0 <= k < r.1@.len()
                ==> !old(self).kernel.edge_buffer.active((#[trigger] r.1@[k]).offset as int),
            forall|k: int| 0 <= k < r.0@.len()
                ==> (#[trigger] final(self).kernel.edge_buffer.slots()[
                    r.0@[k].offset as int]).props.tag == 0,
            forall|k: int| 0 <= k < r.1@.len()
                ==> (#[trigger] final(self).kernel.edge_buffer.slots()[
                    r.1@[k].offset as int]).props.tag == 0,
            r.0@.len() == verts@.len(),
            r.1@.len() == verts@.len(),
            forall|j: int| 0 <= j < verts@.len() ==> final(self).live_vertex(#[trigger] verts@[j]),
            forall|j: int| 0 <= j < verts@.len()
                ==> (#[trigger] final(self).vertex_at(verts@[j])).point_index
                    == old(self).vertex_at(verts@[j]).point_index,
            forall|j: int| 0 <= j < r.0@.len() ==> final(self).live_edge(#[trigger] r.0@[j]),
            forall|j: int| 0 <= j < r.1@.len() ==> final(self).live_edge(#[trigger] r.1@[j]),
            forall|j: int| 0 <= j < r.0@.len() ==> (#[trigger] final(self).edge_at(r.0@[j]))
                == (Edge {
                    twin_index: r.1@[j],
                    next_index: invalid(),
                    prev_index: invalid(),
                    face_index: invalid(),
                    vertex_index: verts@[j],
                }),
            forall|j: int| 0 <= j < r.1@.len() ==> (#[trigger] final(self).edge_at(r.1@[j]))
                == (Edge {
                    twin_index: r.0@[j],
                    next_index: invalid(),
                    prev_index: invalid(),
                    face_index: invalid(),
                    vertex_index: verts@[if j + 1 == verts@.len() { 0int } else { j + 1 }],
                }),
            forall|j1: int, j2: int| 0 <= j1 < j2 < r.0@.len()
                ==> r.0@[j1].offset != r.0@[j2].offset,
            forall|j1: int, j2: int| 0 <= j1 < r.0@.len() && 0 <= j2 < r.1@.len()
                ==> r.0@[j1].offset != r.1@[j2].offset,
    {
        let n = verts.len();
        let ghost m1 = *self;
        let mut es: Vec<EdgeIndex> = Vec::new();
        let ghost mut twins: Seq<EdgeIndex> = Seq::empty();
        let mut i: usize = 0;
        while i < n
            invariant
                self.wf(),
                self.tag == m1.tag,
                n == verts@.len(),
                3 <= n,
                i <= n,
                self.kernel.face_buffer == m1.kernel.face_buffer,
                self.kernel.point_buffer == m1.kernel.point_buffer,
                m1.kernel.edge_buffer.slots().len() + 2 * n < u32::MAX as int,
                es@.len() == i,
                twins.len() == i,
                self.kernel.edge_buffer.slots().len()
                    <= m1.kernel.edge_buffer.slots().len() + 2 * i,
                self.kernel.edge_buffer.slots().len()
                    >= m1.kernel.edge_buffer.slots().len(),
                self.kernel.vertex_buffer.slots().len()
                    == m1.kernel.vertex_buffer.slots().len(),
                active_count(self.kernel.edge_buffer.slots())
                    == active_count(m1.kernel.edge_buffer.slots()) + 2 * i,
                active_count(self.kernel.vertex_buffer.slots())
                    == active_count(m1.kernel.vertex_buffer.slots()),
                forall|o: int| m1.kernel.edge_buffer.active(o)
                    ==> #[trigger] self.kernel.edge_buffer.slots()[o]
                        == m1.kernel.edge_buffer.slots()[o],
                forall|o: int| m1.kernel.vertex_buffer.active(o)
                    && (forall|k: int| 0 <= k < verts@.len()
                        ==> (#[trigger] verts@[k]).offset != o)
                    ==> #[trigger] self.kernel.vertex_buffer.slots()[o]
                        == m1.kernel.vertex_buffer.slots()[o],
                forall|j: int| 0 <= j < i
                    ==> !m1.kernel.edge_buffer.active((#[trigger] es@[j]).offset as int),
                forall|j: int| 0 <= j < i
                    ==> !m1.kernel.edge_buffer.active((#[trigger] twins[j]).offset as int),
                forall|j: int| 0 <= j < i
                    ==> (#[trigger] self.kernel.edge_buffer.slots()[
                        es@[j].offset as int]).props.tag == 0,
                forall|j: int| 0 <= j < i
                    ==> (#[trigger] self.kernel.edge_buffer.slots()[
                        twins[j].offset as int]).props.tag == 0,
                forall|j: int| 0 <= j < n ==> self.live_vertex(#[trigger] verts@[j]),
                forall|j: int| 0 <= j < n
                    ==> (#[trigger] self.vertex_at(verts@[j])).point_index
                        == m1.vertex_at(verts@[j]).point_index,
                forall|j: int| 0 <= j < i ==> self.live_edge(#[trigger] es@[j]),
                forall|j: int| 0 <= j < i ==> self.live_edge(#[trigger] twins[j]),
                forall|j: int| 0 <= j < i ==> (#[trigger] self.edge_at(es@[j])) == (Edge {
                    twin_index: twins[j],
                    next_index: invalid(),
                    prev_index: invalid(),
                    face_index: invalid(),
                    vertex_index: verts@[j],
                }),
                forall|j: int| 0 <= j < i ==> (#[trigger] self.edge_at(twins[j])) == (Edge {
                    twin_index: es@[j],
                    next_index: invalid(),
                    prev_index: invalid(),
                    face_index: invalid(),
                    vertex_index: verts@[if j + 1 == n { 0int } else { j + 1 }],
                }),
                forall|j1: int, j2: int| 0 <= j1 < j2 < i
                    ==> es@[j1].offset != es@[j2].offset,
                forall|j1: int, j2: int| 0 <= j1 < i && 0 <= j2 < i
                    ==> es@[j1].offset != twins[j2].offset,
            decreases n - i,
        {
            let ghost pre = *self;
            let v0 = verts[i];
            let v1 = if i + 1 == n { verts[0] } else { verts[i + 1] };
            let e0 = build_full_edge(self, v0, v1);
            let ghost e1 = self.edge_at(e0).twin_index;
            es.push(e0);
            proof {
                twins = twins.push(e1);
                assert forall|j: int| 0 <= j < i + 1 implies
                    self.live_edge(#[trigger] es@[j]) && self.live_edge(#[trigger] twins[j])
                    && self.edge_at(es@[j]) == (Edge {
                        twin_index: twins[j],
                        next_index: invalid(),
                        prev_index: invalid(),
                        face_index: invalid(),
                        vertex_index: verts@[j],
                    })
                    && self.edge_at(twins[j]) == (Edge {
                        twin_index: es@[j],
                        next_index: invalid(),
                        prev_index: invalid(),
                        face_index: invalid(),
                        vertex_index: verts@[if j + 1 == n { 0int } else { j + 1 }],
                    }) by {
                    if j < i {
                        assert(pre.live_edge(es@[j]));
                        assert(pre.live_edge(twins[j]));
                        assert(es@[j].offset != e0.offset && es@[j].offset != e1.offset);
                        assert(twins[j].offset != e0.offset && twins[j].offset != e1.offset);
                        assert(self.kernel.edge_buffer.slots()[es@[j].offset as int]
                            == pre.kernel.edge_buffer.slots()[es@[j].offset as int]);
                        assert(self.kernel.edge_buffer.slots()[twins[j].offset as int]
                            == pre.kernel.edge_buffer.slots()[twins[j].offset as int]);
                        assert(self.kernel.edge_buffer.slots().len()
                            >= pre.kernel.edge_buffer.slots().len());
                        assert(self.live_edge(es@[j]));
                        assert(self.live_edge(twins[j]));
                        assert(self.edge_at(es@[j]) == pre.edge_at(es@[j]));
                        assert(self.edge_at(twins[j]) == pre.edge_at(twins[j]));
                    } else {
                        assert(es@[j] == e0 && twins[j] == e1);
                        assert(self.live_edge(e0));
                        assert(self.live_edge(e1));
                        assert(self.edge_at(e0) == (Edge {
                            twin_index: e1,
                            next_index: invalid(),
                            prev_index: invalid(),
                            face_index: invalid(),
                            vertex_index: v0,
                        }));
                        assert(v0 == verts@[j]);
                        assert(v1 == verts@[if j + 1 == n { 0int } else { j + 1 }]);
                    }
                }
                assert forall|j: int| 0 <= j < n implies
                    self.live_vertex(#[trigger] verts@[j])
                    && self.vertex_at(verts@[j]).point_index
                        == m1.vertex_at(verts@[j]).point_index by {
                    assert(pre.live_vertex(verts@[j]));
                    assert(pre.vertex_at(verts@[j]).point_index
                        == m1.vertex_at(verts@[j]).point_index);
                    let s0 = pre.kernel.vertex_buffer.slots();
                    assert(self.kernel.vertex_buffer.slots()[verts@[j].offset as int].props
                        == s0[verts@[j].offset as int].props);
                    assert(self.kernel.vertex_buffer.slots()[verts@[j].offset as int]
                        .value.point_index
                        == s0[verts@[j].offset as int].value.point_index);
                }
                assert forall|j1: int, j2: int| 0 <= j1 < i + 1 && 0 <= j2 < i + 1 implies
                    (j1 < j2 ==> es@[j1].offset != es@[j2].offset)
                    && es@[j1].offset != twins[j2].offset by {
                    if j1 == i || j2 == i {
                        if j1 < i { assert(pre.live_edge(es@[j1])); assert(pre.live_edge(twins[j1])); }
                        if j2 < i { assert(pre.live_edge(es@[j2])); assert(pre.live_edge(twins[j2])); }
                    }
                }
                assert forall|o: int| m1.kernel.edge_buffer.active(o)
                    implies #[trigger] self.kernel.edge_buffer.slots()[o]
                        == m1.kernel.edge_buffer.slots()[o] by {
                    assert(pre.kernel.edge_buffer.slots()[o]
                        == m1.kernel.edge_buffer.slots()[o]);
                    assert(pre.kernel.edge_buffer.active(o));
                    assert(o != e0.offset && o != e1.offset);
                }
                assert forall|o: int| m1.kernel.vertex_buffer.active(o)
                    && (forall|k: int| 0 <= k < verts@.len()
                        ==> (#[trigger] verts@[k]).offset != o)
                    implies #[trigger] self.kernel.vertex_buffer.slots()[o]
                        == m1.kernel.vertex_buffer.slots()[o] by {
                    assert(v0.offset != o && v1.offset != o);
                    assert(self.kernel.vertex_buffer.slots()[o]
                        == pre.kernel.vertex_buffer.slots()[o]);
                }
                assert forall|j: int| 0 <= j < i + 1 implies
                    !m1.kernel.edge_buffer.active((#[trigger] es@[j]).offset as int)
                    && !m1.kernel.edge_buffer.active((#[trigger] twins[j]).offset as int) by {
                    if j == i {
                        if m1.kernel.edge_buffer.active(e0.offset as int) {
                            assert(pre.kernel.edge_buffer.slots()[e0.offset as int]
                                == m1.kernel.edge_buffer.slots()[e0.offset as int]);
                            assert(false);
                        }
                        if m1.kernel.edge_buffer.active(e1.offset as int) {
                            assert(pre.kernel.edge_buffer.slots()[e1.offset as int]
                                == m1.kernel.edge_buffer.slots()[e1.offset as int]);
                            assert(false);
                        }
                    }
                }
                assert forall|j: int| 0 <= j < i + 1 implies
                    (#[trigger] self.kernel.edge_buffer.slots()[
                        es@[j].offset as int]).props.tag == 0
                    && (#[trigger] self.kernel.edge_buffer.slots()[
                        twins[j].offset as int]).props.tag == 0 by {
                    if j < i {
                        assert(es@[j].offset != e0.offset && es@[j].offset != e1.offset);
                        assert(twins[j].offset != e0.offset && twins[j].offset != e1.offset);
                        assert(self.kernel.edge_buffer.slots()[es@[j].offset as int]
                            == pre.kernel.edge_buffer.slots()[es@[j].offset as int]);
                        assert(self.kernel.edge_buffer.slots()[twins[j].offset as int]
                            == pre.kernel.edge_buffer.slots()[twins[j].offset as int]);
                    } else {
                        assert(es@[j] == e0 && twins[j] == e1);
                    }
                }
            }
            i = i + 1;
        }
        (es, Ghost(twins))
    }

    /// Wires each ring edge to the next one around, closing the loop of
    /// `next`/`prev` links; every other edge field stays as it was.
    #[verifier::rlimit(50)]
    #[verifier::spinoff_prover]
    pub(crate) fn connect_ring(&mut self, es: &Vec<EdgeIndex>, Ghost(twins): Ghost<Seq<EdgeIndex>>)
        requires
            old(self).wf(),
            es@.len() >= 3,
            twins.len() == es@.len(),
            forall|j: int| 0 <= j < es@.len() ==> old(self).live_edge(#[trigger] es@[j]),
            forall|j: int| 0 <= j < twins.len() ==> old(self).live_edge(#[trigger] twins[j]),
            forall|j1: int, j2: int| 0 <= j1 < j2 < es@.len()
                ==> es@[j1].offset != es@[j2].offset,
            forall|j1: int, j2: int| 0 <= j1 < es@.len() && 0 <= j2 < twins.len()
                ==> es@[j1].offset != twins[j2].offset,
        ensures
            final(self).wf(),
            final(self).tag == old(self).tag,
            final(self).kernel.face_buffer == old(self).kernel.face_buffer,
            final(self).kernel.point_buffer == old(self).kernel.point_buffer,
            final(self).kernel.vertex_buffer == old(self).kernel.vertex_buffer,
            final(self).kernel.edge_buffer.slots().len()
                == old(self).kernel.edge_buffer.slots().len(),
            active_count(final(self).kernel.edge_buffer.slots())
                == active_count(old(self).kernel.edge_buffer.slots()),
            forall|j: int| 0 <= j < es@.len() ==> final(self).live_edge(#[trigger] es@[j]),
            forall|j: int| 0 <= j < twins.len() ==> final(self).live_edge(#[trigger] twins[j]),
            forall|j: int| 0 <= j < twins.len() ==> (#[trigger] final(self).edge_at(twins[j]))
                == old(self).edge_at(twins[j]),
            forall|j: int| 0 <= j < es@.len() ==> (#[trigger] final(self).edge_at(es@[j]))
                == (Edge {
                    twin_index: old(self).edge_at(es@[j]).twin_index,
                    next_index: es@[if j + 1 == es@.len() { 0int } else { j + 1 }],
                    prev_index: es@[if j == 0 { es@.len() - 1 } else { j - 1 }],
                    face_index: old(self).edge_at(es@[j]).face_index,
                    vertex_index: old(self).edge_at(es@[j]).vertex_index,
                }),
            forall|o: int| 0 <= o < old(self).kernel.edge_buffer.slots().len()
                ==> (#[trigger] final(self).kernel.edge_buffer.slots()[o]).props
                    == old(self).kernel.edge_buffer.slots()[o].props,
            forall|o: int| 0 <= o < old(self).kernel.edge_buffer.slots().len()
                && (forall|k: int| 0 <= k < es@.len() ==> (#[trigger] es@[k]).offset != o)
                ==> (#[trigger] final(self).kernel.edge_buffer.slots()[o])
                    == old(self).kernel.edge_buffer.slots()[o],
    {
        let n = es.len();
        let ghost m2 = *self;
        let mut i: usize = 0;
        while i < n
            invariant
                self.wf(),
                self.tag == m2.tag,
                n == es@.len(),
                3 <= n,
                i <= n,
                twins.len() == n,
                self.kernel.face_buffer == m2.kernel.face_buffer,
                self.kernel.point_buffer == m2.kernel.point_buffer,
                self.kernel.vertex_buffer == m2.kernel.vertex_buffer,
                self.kernel.edge_buffer.slots().len()
                    == m2.kernel.edge_buffer.slots().len(),
                active_count(self.kernel.edge_buffer.slots())
                    == active_count(m2.kernel.edge_buffer.slots()),
                forall|o: int| 0 <= o < m2.kernel.edge_buffer.slots().len()
                    ==> (#[trigger] self.kernel.edge_buffer.slots()[o]).props
                        == m2.kernel.edge_buffer.slots()[o].props,
                forall|o: int| 0 <= o < m2.kernel.edge_buffer.slots().len()
                    && (forall|k: int| 0 <= k < es@.len() ==> (#[trigger] es@[k]).offset != o)
                    ==> (#[trigger] self.kernel.edge_buffer.slots()[o])
                        == m2.kernel.edge_buffer.slots()[o],
                forall|j1: int, j2: int| 0 <= j1 < j2 < n
                    ==> es@[j1].offset != es@[j2].offset,
                forall|j1: int, j2: int| 0 <= j1 < n && 0 <= j2 < n
                    ==> es@[j1].offset != twins[j2].offset,
                forall|j: int| 0 <= j < n ==> self.live_edge(#[trigger] es@[j]),
                forall|j: int| 0 <= j < n ==> self.live_edge(#[trigger] twins[j]),
                forall|j: int| 0 <= j < n ==> (#[trigger] self.edge_at(twins[j]))
                    == m2.edge_at(twins[j]),
                forall|j: int| 0 <= j < n ==> (#[trigger] self.edge_at(es@[j]))
                    == (Edge {
                        twin_index: m2.edge_at(es@[j]).twin_index,
                        next_index: if j < i { es@[if j + 1 == n { 0int } else { j + 1 }] }
                            else { m2.edge_at(es@[j]).next_index },
                        prev_index: if 1 <= j && j <= i { es@[j - 1] }
                            else if j == 0 && i == n { es@[n - 1] }
                            else { m2.edge_at(es@[j]).prev_index },
                        face_index: m2.edge_at(es@[j]).face_index,
                        vertex_index: m2.edge_at(es@[j]).vertex_index,
                    }),
            decreases n - i,
        {
            let ghost pre = *self;
            let a = es[i];
            let b = if i + 1 == n { es[0] } else { es[i + 1] };
            connect_edges(self, a, b);
            proof {
                let ghost ia = i as int;
                let ghost ib: int = if i + 1 == n { 0 } else { ia + 1 };
                assert(a == es@[ia] && b == es@[ib]);
                assert(ia != ib);
                assert(es@[ia].offset != es@[ib].offset);
                assert(pre.live_edge(a) && pre.live_edge(b));
                assert(self.kernel.edge_buffer.slots()[a.offset as int].value
                    == crate::elements::edge_with_next(pre.edge_at(a), b));
                assert(self.kernel.edge_buffer.slots()[b.offset as int].value
                    == crate::elements::edge_with_prev(pre.edge_at(b), a));
                assert forall|j: int| 0 <= j < n implies
                    self.live_edge(#[trigger] es@[j]) && self.live_edge(#[trigger] twins[j])
                    && self.edge_at(twins[j]) == pre.edge_at(twins[j])
                    && self.edge_at(es@[j]).twin_index == pre.edge_at(es@[j]).twin_index
                    && self.edge_at(es@[j]).face_index == pre.edge_at(es@[j]).face_index
                    && self.edge_at(es@[j]).vertex_index == pre.edge_at(es@[j]).vertex_index
                    && self.edge_at(es@[j]).next_index
                        == (if j == ia { b } else { pre.edge_at(es@[j]).next_index })
                    && self.edge_at(es@[j]).prev_index
                        == (if j == ib { a } else { pre.edge_at(es@[j]).prev_index }) by {
                    assert(pre.live_edge(es@[j]));
                    assert(pre.live_edge(twins[j]));
                    assert(twins[j].offset != a.offset && twins[j].offset != b.offset);
                    assert(self.kernel.edge_buffer.slots()[twins[j].offset as int]
                        == pre.kernel.edge_buffer.slots()[twins[j].offset as int]);
                    if j != ia && j != ib {
                        assert(es@[j].offset != a.offset && es@[j].offset != b.offset);
                        assert(self.kernel.edge_buffer.slots()[es@[j].offset as int]
                            == pre.kernel.edge_buffer.slots()[es@[j].offset as int]);
                    }
                }
                assert forall|j: int| 0 <= j < n implies (#[trigger] self.edge_at(twins[j]))
                    == m2.edge_at(twins[j]) by {
                    assert(self.edge_at(twins[j]) == pre.edge_at(twins[j]));
                    assert(pre.edge_at(twins[j]) == m2.edge_at(twins[j]));
                }
                assert forall|j: int| 0 <= j < n implies (#[trigger] self.edge_at(es@[j]))
                    == (Edge {
                        twin_index: m2.edge_at(es@[j]).twin_index,
                        next_index: if j < ia + 1 { es@[if j + 1 == n { 0int } else { j + 1 }] }
                            else { m2.edge_at(es@[j]).next_index },
                        prev_index: if 1 <= j && j <= ia + 1 { es@[j - 1] }
                            else if j == 0 && ia + 1 == n { es@[n - 1] }
                            else { m2.edge_at(es@[j]).prev_index },
                        face_index: m2.edge_at(es@[j]).face_index,
                        vertex_index: m2.edge_at(es@[j]).vertex_index,
                    }) by {
                    if j == ia {
                        assert(self.edge_at(es@[j]).next_index == b);
                    } else {
                        assert(self.edge_at(es@[j]).next_index
                            == pre.edge_at(es@[j]).next_index);
                    }
                    if j == ib {
                        assert(self.edge_at(es@[j]).prev_index == a);
                    } else {
                        assert(self.edge_at(es@[j]).prev_index
                            == pre.edge_at(es@[j]).prev_index);
                    }
                }
            }
            i = i + 1;
        }
    }

    /// Claims every ring edge for the face `f`; the twins, and every other
    /// edge field, stay as they were.
    #[verifier::rlimit(50)]
    #[verifier::spinoff_prover]
    pub(crate) fn claim_ring(&mut self, es: &Vec<EdgeIndex>, Ghost(twins): Ghost<Seq<EdgeIndex>>, f: FaceIndex)
        requires
            old(self).wf(),
            twins.len() == es@.len(),
            forall|j: int| 0 <= j < es@.len() ==> old(self).live_edge(#[trigger] es@[j]),
            forall|j: int| 0 <= j < twins.len() ==> old(self).live_edge(#[trigger] twins[j]),
            forall|j1: int, j2: int| 0 <= j1 < j2 < es@.len()
                ==> es@[j1].offset != es@[j2].offset,
            forall|j1: int, j2: int| 0 <= j1 < es@.len() && 0 <= j2 < twins.len()
                ==> es@[j1].offset != twins[j2].offset,
        ensures
            final(self).wf(),
            final(self).tag == old(self).tag,
            final(self).kernel.face_buffer == old(self).kernel.face_buffer,
            final(self).kernel.point_buffer == old(self).kernel.point_buffer,
            final(self).kernel.vertex_buffer == old(self).kernel.vertex_buffer,
            active_count(final(self).kernel.edge_buffer.slots())
                == active_count(old(self).kernel.edge_buffer.slots()),
            forall|j: int| 0 <= j < es@.len() ==> final(self).live_edge(#[trigger] es@[j]),
            forall|j: int| 0 <= j < twins.len() ==> final(self).live_edge(#[trigger] twins[j]),
            forall|j: int| 0 <= j < twins.len() ==> (#[trigger] final(self).edge_at(twins[j]))
                == old(self).edge_at(twins[j]),
            forall|j: int| 0 <= j < es@.len() ==> (#[trigger] final(self).edge_at(es@[j]))
                == crate::elements::edge_with_face(old(self).edge_at(es@[j]), f),
            final(self).kernel.edge_buffer.slots().len()
                == old(self).kernel.edge_buffer.slots().len(),
            forall|o: int| 0 <= o < old(self).kernel.edge_buffer.slots().len()
                ==> (#[trigger] final(self).kernel.edge_buffer.slots()[o]).props
                    == old(self).kernel.edge_buffer.slots()[o].props,
            forall|o: int| 0 <= o < old(self).kernel.edge_buffer.slots().len()
                && (forall|k: int| 0 <= k < es@.len() ==> (#[trigger] es@[k]).offset != o)
                ==> (#[trigger] final(self).kernel.edge_buffer.slots()[o])
                    == old(self).kernel.edge_buffer.slots()[o],
    {
        let n = es.len();
        let ghost m3 = *self;
        let mut i: usize = 0;
        while i < n
            invariant
                self.wf(),
                self.tag == m3.tag,
                n == es@.len(),
                i <= n,
                twins.len() == n,
                self.kernel.face_buffer == m3.kernel.face_buffer,
                self.kernel.point_buffer == m3.kernel.point_buffer,
                self.kernel.vertex_buffer == m3.kernel.vertex_buffer,
                active_count(self.kernel.edge_buffer.slots())
                    == active_count(m3.kernel.edge_buffer.slots()),
                self.kernel.edge_buffer.slots().len()
                    == m3.kernel.edge_buffer.slots().len(),
                forall|o: int| 0 <= o < m3.kernel.edge_buffer.slots().len()
                    ==> (#[trigger] self.kernel.edge_buffer.slots()[o]).props
                        == m3.kernel.edge_buffer.slots()[o].props,
                forall|o: int| 0 <= o < m3.kernel.edge_buffer.slots().len()
                    && (forall|k: int| 0 <= k < es@.len() ==> (#[trigger] es@[k]).offset != o)
                    ==> (#[trigger] self.kernel.edge_buffer.slots()[o])
                        == m3.kernel.edge_buffer.slots()[o],
                forall|j1: int, j2: int| 0 <= j1 < j2 < n
                    ==> es@[j1].offset != es@[j2].offset,
                forall|j1: int, j2: int| 0 <= j1 < n && 0 <= j2 < n
                    ==> es@[j1].offset != twins[j2].offset,
                forall|j: int| 0 <= j < n ==> self.live_edge(#[trigger] es@[j]),
                forall|j: int| 0 <= j < n ==> self.live_edge(#[trigger] twins[j]),
                forall|j: int| 0 <= j < n ==> (#[trigger] self.edge_at(twins[j]))
                    == m3.edge_at(twins[j]),
                forall|j: int| 0 <= j < n ==> (#[trigger] self.edge_at(es@[j]))
                    == (if j < i { crate::elements::edge_with_face(m3.edge_at(es@[j]), f) }
                        else { m3.edge_at(es@[j]) }),
            decreases n - i,
        {
            let ghost pre = *self;
            set_edge_face(self, es[i], f);
            proof {
                let ghost ia = i as int;
                assert(pre.live_edge(es@[ia]));
                assert(self.kernel.edge_buffer.slots()[es@[ia].offset as int].value
                    == crate::elements::edge_with_face(pre.edge_at(es@[ia]), f));
                assert forall|j: int| 0 <= j < n implies
                    self.live_edge(#[trigger] es@[j]) && self.live_edge(#[trigger] twins[j])
                    && self.edge_at(twins[j]) == pre.edge_at(twins[j])
                    && self.edge_at(es@[j])
                        == (if j == ia { crate::elements::edge_with_face(pre.edge_at(es@[j]), f) }
                            else { pre.edge_at(es@[j]) }) by {
                    assert(pre.live_edge(es@[j]));
                    assert(pre.live_edge(twins[j]));
                    assert(twins[j].offset != es@[ia].offset);
                    assert(self.kernel.edge_buffer.slots()[twins[j].offset as int]
                        == pre.kernel.edge_buffer.slots()[twins[j].offset as int]);
                    if j != ia {
                        assert(es@[j].offset != es@[ia].offset);
                        assert(self.kernel.edge_buffer.slots()[es@[j].offset as int]
                            == pre.kernel.edge_buffer.slots()[es@[j].offset as int]);
                    }
                }
                assert forall|j: int| 0 <= j < n implies (#[trigger] self.edge_at(twins[j]))
                    == m3.edge_at(twins[j]) by {
                    assert(self.edge_at(twins[j]) == pre.edge_at(twins[j]));
                    assert(pre.edge_at(twins[j]) == m3.edge_at(twins[j]));
                }
                assert forall|j: int| 0 <= j < n implies (#[trigger] self.edge_at(es@[j]))
                    == (if j < ia + 1 {
                        crate::elements::edge_with_face(m3.edge_at(es@[j]), f)
                    } else {
                        m3.edge_at(es@[j])
                    }) by {
                    if j != ia {
                        assert(self.edge_at(es@[j]) == pre.edge_at(es@[j]));
                    } else {
                        assert(pre.edge_at(es@[j]) == m3.edge_at(es@[j]));
                    }
                }
            }
            i = i + 1;
        }
    }

    /// Grows a new face out of an existing boundary edge: the given edge
    /// becomes the first side of the new face, one vertex is created per
    /// given point, the chain of new edge pairs is closed back to the given
    /// edge, and the whole loop is claimed for a fresh face rooted at the
    /// given edge.
    #[verifier::rlimit(50)]
    #[verifier::spinoff_prover]
    pub fn add_face_at(&mut self, edge: EdgeIndex, points: &[PointIndex]) -> (f: FaceIndex)
        requires
            old(self).wf(),
            points@.len() >= 1,
            old(self).kernel.face_buffer.slots().len() < u32::MAX as int,
            old(self).kernel.vertex_buffer.slots().len() + points@.len() < u32::MAX as int,
            old(self).kernel.edge_buffer.slots().len() + 2 * points@.len() + 2
                < u32::MAX as int,
        ensures
            final(self).wf(),
            final(self).tag == old(self).tag,
            final(self).kernel.point_buffer == old(self).kernel.point_buffer,
            final(self).live_face(f),
            final(self).root_edge_spec(f) == edge,
            active_count(final(self).kernel.face_buffer.slots())
                == active_count(old(self).kernel.face_buffer.slots()) + 1,
            active_count(final(self).kernel.vertex_buffer.slots())
                == active_count(old(self).kernel.vertex_buffer.slots()) + points@.len(),
            old(self).live_edge(edge)
                ==> active_count(final(self).kernel.edge_buffer.slots())
                    == active_count(old(self).kernel.edge_buffer.slots())
                        + 2 * points@.len() + 2,
            active_count(final(self).kernel.edge_buffer.slots())
                >= active_count(old(self).kernel.edge_buffer.slots()) + 2 * points@.len(),
            active_count(final(self).kernel.edge_buffer.slots())
                <= active_count(old(self).kernel.edge_buffer.slots())
                    + 2 * points@.len() + 2,
            final(self).kernel.edge_buffer.slots().len()
                >= old(self).kernel.edge_buffer.slots().len(),
            final(self).kernel.edge_buffer.slots().len()
                <= old(self).kernel.edge_buffer.slots().len() + 2 * points@.len() + 2,
            final(self).kernel.vertex_buffer.slots().len()
                >= old(self).kernel.vertex_buffer.slots().len(),
            final(self).kernel.vertex_buffer.slots().len()
                <= old(self).kernel.vertex_buffer.slots().len() + points@.len(),
            final(self).kernel.face_buffer.slots().len()
                >= old(self).kernel.face_buffer.slots().len(),
            final(self).kernel.face_buffer.slots().len()
                <= old(self).kernel.face_buffer.slots().len() + 1,
    {
        let ghost m0 = *self;
        let n = points.len();
        let mut last = edge;
        let mut i: usize = 0;
        while i < n
            invariant
                self.wf(),
                self.tag == m0.tag,
                n == points@.len(),
                1 <= n,
                i <= n,
                self.kernel.point_buffer == m0.kernel.point_buffer,
                self.kernel.face_buffer == m0.kernel.face_buffer,
                self.kernel.vertex_buffer.slots().len()
                    <= m0.kernel.vertex_buffer.slots().len() + i,
                self.kernel.vertex_buffer.slots().len()
                    >= m0.kernel.vertex_buffer.slots().len(),
                self.kernel.edge_buffer.slots().len()
                    <= m0.kernel.edge_buffer.slots().len() + 2 * i,
                self.kernel.edge_buffer.slots().len()
                    >= m0.kernel.edge_buffer.slots().len(),
                active_count(self.kernel.vertex_buffer.slots())
                    == active_count(m0.kernel.vertex_buffer.slots()) + i,
                active_count(self.kernel.edge_buffer.slots())
                    == active_count(m0.kernel.edge_buffer.slots()) + 2 * i,
                m0.live_edge(edge) ==> (self.live_edge(edge)
                    && (i >= 1 ==> last.offset != edge.offset
                        && self.edge_at(last).twin_index.offset != edge.offset)),
                i >= 1 ==> (self.live_edge(last)
                    && self.live_edge(self.edge_at(last).twin_index)),
                i == 0 ==> last == edge,
                m0.kernel.vertex_buffer.slots().len() + n < u32::MAX as int,
                m0.kernel.edge_buffer.slots().len() + 2 * n + 2 < u32::MAX as int,
                m0.kernel.face_buffer.slots().len() < u32::MAX as int,
            decreases n - i,
        {
            let ghost pre_last = last;
            let v = self.add(Vertex::from_point(points[i]));
            let ghost mid = *self;
            last = build_full_edge_from(self, last, v);
            proof {
                if m0.live_edge(edge) {
                    assert(mid.live_edge(edge));
                    let e1 = self.edge_at(last).twin_index;
                    assert(!mid.kernel.edge_buffer.active(last.offset as int));
                    assert(!mid.kernel.edge_buffer.active(e1.offset as int));
                    assert(last.offset != edge.offset);
                    assert(e1.offset != edge.offset);
                    if i == 0 {
                        assert(self.live_edge(edge));
                    } else {
                        assert(pre_last.offset != edge.offset);
                        assert(self.kernel.edge_buffer.slots()[edge.offset as int]
                            == mid.kernel.edge_buffer.slots()[edge.offset as int]);
                        assert(self.live_edge(edge));
                    }
                }
            }
            i = i + 1;
        }
        let ghost before_close = *self;
        let _closing = close_edge_loop(self, last, edge);
        proof {
            assert(before_close.live_edge(before_close.adjacent_spec(last)));
            if m0.live_edge(edge) {
                assert(before_close.live_edge(edge));
            }
        }
        let f = self.add(Face::new(edge));
        assign_face_to_loop(self, edge, f);
        f
    }

    /// Builds a triangle over two existing edges: the edges are wired
    /// together in the order given, the third side is created to close the
    /// loop, and a fresh face rooted at the first side claims it. The third
    /// side only comes to be where both its ends can be discovered; a
    /// malformed pair of arguments still yields the face, over whatever
    /// loop the root heads.
    #[verifier::rlimit(50)]
    #[verifier::spinoff_prover]
    pub fn add_face_from_two_edges(&mut self, a: EdgeIndex, b: EdgeIndex, order: EdgeOrder)
        -> (f: FaceIndex)
        requires
            old(self).wf(),
            old(self).kernel.face_buffer.slots().len() < u32::MAX as int,
            old(self).kernel.edge_buffer.slots().len() + 2 < u32::MAX as int,
        ensures
            final(self).wf(),
            final(self).tag == old(self).tag,
            final(self).kernel.point_buffer == old(self).kernel.point_buffer,
            final(self).live_face(f),
            active_count(final(self).kernel.face_buffer.slots())
                == active_count(old(self).kernel.face_buffer.slots()) + 1,
            active_count(final(self).kernel.vertex_buffer.slots())
                == active_count(old(self).kernel.vertex_buffer.slots()),
            active_count(final(self).kernel.edge_buffer.slots())
                >= active_count(old(self).kernel.edge_buffer.slots()),
            active_count(final(self).kernel.edge_buffer.slots())
                <= active_count(old(self).kernel.edge_buffer.slots()) + 2,
            final(self).kernel.edge_buffer.slots().len()
                >= old(self).kernel.edge_buffer.slots().len(),
            final(self).kernel.edge_buffer.slots().len()
                <= old(self).kernel.edge_buffer.slots().len() + 2,
            final(self).kernel.vertex_buffer.slots().len()
                == old(self).kernel.vertex_buffer.slots().len(),
            final(self).kernel.face_buffer.slots().len()
                >= old(self).kernel.face_buffer.slots().len(),
            final(self).kernel.face_buffer.slots().len()
                <= old(self).kernel.face_buffer.slots().len() + 1,
            !(order is BC) ==> final(self).root_edge_spec(f) == a,
            ({
                let closing_found = match order {
                    EdgeOrder::AC => old(self).live_edge(old(self).adjacent_spec(a))
                        && old(self).live_edge(b),
                    EdgeOrder::AB => old(self).live_edge(old(self).adjacent_spec(b))
                        && old(self).live_edge(a),
                    EdgeOrder::BC => old(self).live_edge(old(self).adjacent_spec(b))
                        && old(self).live_edge(a),
                };
                closing_found ==> active_count(final(self).kernel.edge_buffer.slots())
                    == active_count(old(self).kernel.edge_buffer.slots()) + 2
            }),
    {
        let ghost m0 = *self;
        let root = match order {
            EdgeOrder::AC => {
                connect_edges(self, b, a);
                proof {
                    lemma_connect_keeps_navigation(m0, *self, b, a);
                }
                let _e1 = close_edge_loop(self, a, b);
                a
            },
            EdgeOrder::AB => {
                connect_edges(self, a, b);
                proof {
                    lemma_connect_keeps_navigation(m0, *self, a, b);
                }
                let _e2 = close_edge_loop(self, b, a);
                a
            },
            EdgeOrder::BC => {
                connect_edges(self, a, b);
                proof {
                    lemma_connect_keeps_navigation(m0, *self, a, b);
                }
                let e0 = close_edge_loop(self, b, a);
                e0
            },
        };
        let f = self.add(Face::new(root));
        assign_face_to_loop(self, root, f);
        f
    }
}

impl<'a> MakeFace<&'a [PointIndex]> for Mesh {
    open spec fn make_face_pre(&self, args: &'a [PointIndex]) -> bool {
        self.add_face_pre(args@)
    }

    #[verifier::rlimit(40)]
    fn make_face(&mut self, args: &'a [PointIndex]) -> (h: Handle)
        ensures
            final(self).wf(),
            final(self).tag == old(self).tag,
            final(self).kernel.point_buffer == old(self).kernel.point_buffer,
            h.id_spec() matches ComponentID::Face(f) && {
                &&& final(self).live_face(f)
                &&& h.generation_spec() == Some(f.generation)
                &&& face_ring_spec(*final(self), f, args@)
                &&& active_count(final(self).kernel.face_buffer.slots())
                    == active_count(old(self).kernel.face_buffer.slots()) + 1
                &&& active_count(final(self).kernel.vertex_buffer.slots())
                    == active_count(old(self).kernel.vertex_buffer.slots()) + args@.len()
                &&& active_count(final(self).kernel.edge_buffer.slots())
                    == active_count(old(self).kernel.edge_buffer.slots()) + 2 * args@.len()
            },
    {
        let f = self.add_face(args);
        Handle::new(ComponentID::Face(f), f.generation)
    }
}

impl<'a> MakeFace<(EdgeIndex, &'a [PointIndex])> for Mesh {
    open spec fn make_face_pre(&self, args: (EdgeIndex, &'a [PointIndex])) -> bool {
        &&& self.wf()
        &&& args.1@.len() >= 1
        &&& self.kernel.face_buffer.slots().len() < u32::MAX as int
        &&& self.kernel.vertex_buffer.slots().len() + args.1@.len() < u32::MAX as int
        &&& self.kernel.edge_buffer.slots().len() + 2 * args.1@.len() + 2 < u32::MAX as int
    }

    fn make_face(&mut self, args: (EdgeIndex, &'a [PointIndex])) -> (h: Handle)
        ensures
            final(self).wf(),
            final(self).tag == old(self).tag,
            final(self).kernel.point_buffer == old(self).kernel.point_buffer,
            h.id_spec() matches ComponentID::Face(f) && {
                &&& final(self).live_face(f)
                &&& h.generation_spec() == Some(f.generation)
                &&& final(self).root_edge_spec(f) == args.0
                &&& active_count(final(self).kernel.face_buffer.slots())
                    == active_count(old(self).kernel.face_buffer.slots()) + 1
                &&& active_count(final(self).kernel.vertex_buffer.slots())
                    == active_count(old(self).kernel.vertex_buffer.slots()) + args.1@.len()
                &&& (old(self).live_edge(args.0)
                    ==> active_count(final(self).kernel.edge_buffer.slots())
                        == active_count(old(self).kernel.edge_buffer.slots())
                            + 2 * args.1@.len() + 2)
            },
    {
        let (edge, points) = args;
        let f = self.add_face_at(edge, points);
        Handle::new(ComponentID::Face(f), f.generation)
    }
}

impl MakeFace<(EdgeIndex, EdgeIndex)> for Mesh {
    open spec fn make_face_pre(&self, args: (EdgeIndex, EdgeIndex)) -> bool {
        &&& self.wf()
        &&& self.kernel.face_buffer.slots().len() < u32::MAX as int
        &&& self.kernel.edge_buffer.slots().len() + 2 < u32::MAX as int
    }

    fn make_face(&mut self, args: (EdgeIndex, EdgeIndex)) -> (h: Handle)
        ensures
            final(self).wf(),
            final(self).tag == old(self).tag,
            final(self).kernel.point_buffer == old(self).kernel.point_buffer,
            h.id_spec() matches ComponentID::Face(f) && {
                &&& final(self).live_face(f)
                &&& h.generation_spec() == Some(f.generation)
                &&& final(self).root_edge_spec(f) == args.0
                &&& active_count(final(self).kernel.face_buffer.slots())
                    == active_count(old(self).kernel.face_buffer.slots()) + 1
                &&& active_count(final(self).kernel.vertex_buffer.slots())
                    == active_count(old(self).kernel.vertex_buffer.slots())
                &&& (old(self).live_edge(old(self).adjacent_spec(args.0))
                        && old(self).live_edge(args.1)
                    ==> active_count(final(self).kernel.edge_buffer.slots())
                        == active_count(old(self).kernel.edge_buffer.slots()) + 2)
            },
    {
        let (a, b) = args;
        let f = self.add_face_from_two_edges(a, b, EdgeOrder::AC);
        Handle::new(ComponentID::Face(f), f.generation)
    }
}

/// Wiring two edges together changes only their `next` and `prev` links:
/// every handle still resolves the same way and every twin step lands where
/// it did.
proof fn lemma_connect_keeps_navigation(pre: Mesh, post: Mesh, p: EdgeIndex, q: EdgeIndex)
    requires
        post.kernel.edge_buffer.slots()
            == crate::utils::connect_spec(pre.kernel.edge_buffer.slots(), p, q),
    ensures
        forall|e: EdgeIndex| #[trigger] post.live_edge(e) == pre.live_edge(e),
        forall|e: EdgeIndex| #[trigger] post.adjacent_spec(e) == pre.adjacent_spec(e),
{
    let s0 = pre.kernel.edge_buffer.slots();
    let s1 = if crate::buffer::resolves_in(s0, p) {
        crate::buffer::set_value_in(s0, p.offset as int,
            crate::elements::edge_with_next(s0[p.offset as int].value, q))
    } else {
        s0
    };
    assert forall|e: EdgeIndex| #[trigger] post.live_edge(e) == pre.live_edge(e) by {
        if 0 < e.offset && (e.offset as int) < s0.len() {
            assert(s1[e.offset as int].props == s0[e.offset as int].props);
            assert(post.kernel.edge_buffer.slots()[e.offset as int].props
                == s1[e.offset as int].props);
        }
    }
    assert forall|e: EdgeIndex| #[trigger] post.adjacent_spec(e) == pre.adjacent_spec(e) by {
        assert(post.live_edge(e) == pre.live_edge(e));
        if pre.live_edge(e) {
            let s2 = post.kernel.edge_buffer.slots();
            if crate::buffer::resolves_in(s0, p) && e.offset == p.offset {
                assert(s1 == crate::buffer::set_value_in(s0, p.offset as int,
                    crate::elements::edge_with_next(s0[p.offset as int].value, q)));
                assert(s1[p.offset as int].value
                    == crate::elements::edge_with_next(s0[p.offset as int].value, q));
                assert(e.offset as int == p.offset as int);
            } else {
                assert(s1[e.offset as int] == s0[e.offset as int]);
            }
            if crate::buffer::resolves_in(s1, q) && e.offset == q.offset {
                assert(s2[e.offset as int].value
                    == crate::elements::edge_with_prev(s1[q.offset as int].value, p));
            } else {
                assert(s2[e.offset as int] == s1[e.offset as int]);
            }
            assert(s2[e.offset as int].value.twin_index
                == s0[e.offset as int].value.twin_index);
        }
    }
}

/// Once a ring of edge pairs has been created, wired into a cycle, and
/// claimed by a fresh face, the ring is that face's closed loop, every ring
/// edge is boundary, and each ring edge still leaves its ring vertex.
#[verifier::rlimit(50)]
#[verifier::spinoff_prover]
pub(crate) proof fn lemma_assemble_ring(
    mb: Mesh,
    mf: Mesh,
    fin: Mesh,
    points: Seq<PointIndex>,
    verts: Seq<VertexIndex>,
    es: Seq<EdgeIndex>,
    twins: Seq<EdgeIndex>,
    f: FaceIndex,
)
    requires
        es.len() == points.len(),
        es.len() >= 3,
        twins.len() == es.len(),
        verts.len() == es.len(),
        // the wired, unclaimed ring
        forall|k: int| 0 <= k < es.len() ==> mb.live_edge(#[trigger] es[k]),
        forall|k: int| 0 <= k < es.len() ==> mb.live_edge(#[trigger] twins[k]),
        forall|k: int| 0 <= k < es.len() ==> (#[trigger] mb.edge_at(es[k])) == (Edge {
            twin_index: twins[k],
            next_index: es[if k + 1 == es.len() { 0int } else { k + 1 }],
            prev_index: es[if k == 0 { es.len() - 1 } else { k - 1 }],
            face_index: invalid(),
            vertex_index: verts[k],
        }),
        forall|k: int| 0 <= k < es.len() ==> (#[trigger] mb.edge_at(twins[k])).face_index
            == invalid::<crate::handles::FaceKind>(),
        forall|k: int| 0 <= k < es.len() ==> (#[trigger] mb.edge_at(twins[k])).twin_index
            == es[k],
        forall|j1: int, j2: int| 0 <= j1 < j2 < es.len() ==> es[j1].offset != es[j2].offset,
        forall|j1: int, j2: int| 0 <= j1 < es.len() && 0 <= j2 < twins.len()
            ==> es[j1].offset != twins[j2].offset,
        // the fresh face
        mf.kernel.edge_buffer == mb.kernel.edge_buffer,
        mf.live_face(f),
        mf.face_at(f) == (Face { edge_index: es[0] }),
        // the claimed ring
        forall|k: int| 0 <= k < es.len() ==> fin.live_edge(#[trigger] es[k]),
        forall|k: int| 0 <= k < es.len() ==> fin.live_edge(#[trigger] twins[k]),
        forall|k: int| 0 <= k < es.len() ==> (#[trigger] fin.edge_at(twins[k]))
            == mf.edge_at(twins[k]),
        forall|k: int| 0 <= k < es.len() ==> (#[trigger] fin.edge_at(es[k]))
            == crate::elements::edge_with_face(mf.edge_at(es[k]), f),
        fin.kernel.face_buffer == mf.kernel.face_buffer,
        // the vertices under the ring
        forall|k: int| 0 <= k < verts.len() ==> mb.live_vertex(#[trigger] verts[k]),
        forall|k: int| 0 <= k < verts.len()
            ==> (#[trigger] mb.vertex_at(verts[k])).point_index == points[k],
        fin.kernel.vertex_buffer == mb.kernel.vertex_buffer,
        // the ring's slots are untagged and stay so through the claim
        forall|k: int| 0 <= k < es.len()
            ==> (#[trigger] mb.kernel.edge_buffer.slots()[es[k].offset as int]).props.tag == 0,
        fin.kernel.edge_buffer.slots().len() == mb.kernel.edge_buffer.slots().len(),
        forall|o: int| 0 <= o < mb.kernel.edge_buffer.slots().len()
            ==> (#[trigger] fin.kernel.edge_buffer.slots()[o]).props
                == mb.kernel.edge_buffer.slots()[o].props,
    ensures
        fin.face_loop(f, es),
        forall|k: int| 0 <= k < es.len() ==> #[trigger] fin.boundary_spec(es[k]),
        forall|k: int| 0 <= k < es.len() ==> {
            let v = (#[trigger] fin.edge_at(es[k])).vertex_index;
            &&& fin.live_vertex(v)
            &&& fin.vertex_at(v).point_index == points[k]
        },
        forall|k: int| 0 <= k < es.len() ==> {
            let t = (#[trigger] fin.edge_at(es[k])).twin_index;
            &&& fin.live_edge(t)
            &&& fin.edge_at(t).twin_index == es[k]
            &&& t.offset != es[k].offset
        },
        forall|k: int| 0 <= k < es.len()
            ==> (#[trigger] fin.edge_at(es[k])).vertex_index == verts[k],
        forall|k: int| 0 <= k < es.len()
            ==> (#[trigger] fin.kernel.edge_buffer.slots()[es[k].offset as int]).props.tag
                == 0,
{
    let nn = es.len() as int;
    assert forall|k: int| 0 <= k < nn implies
        (#[trigger] fin.edge_at(es[k])).face_index == f
        && fin.edge_at(es[k]).twin_index == twins[k]
        && fin.edge_at(es[k]).vertex_index == verts[k]
        && fin.edge_at(es[k]).next_index == es[if k + 1 == nn { 0int } else { k + 1 }]
        && fin.edge_at(es[k]).prev_index == es[if k == 0 { nn - 1 } else { k - 1 }]
        && fin.edge_at(twins[k]).face_index == invalid::<crate::handles::FaceKind>()
        && fin.edge_at(twins[k]).twin_index == es[k]
        && twins[k].offset != es[k].offset by {
        assert(mf.edge_at(es[k]) == mb.edge_at(es[k]));
        assert(mf.edge_at(twins[k]) == mb.edge_at(twins[k]));
    }
    assert(fin.live_face(f));
    assert(fin.face_at(f).edge_index == es[0]);
    assert(fin.face_loop(f, es));
    assert forall|k: int| 0 <= k < nn implies #[trigger] fin.boundary_spec(es[k]) by {
        assert(fin.edge_at(twins[k]).face_index == invalid::<crate::handles::FaceKind>());
        assert(!fin.live_face(invalid()));
        assert(fin.adjacent_spec(es[k]) == twins[k]);
    }
    assert forall|k: int| 0 <= k < nn implies {
        let v = (#[trigger] fin.edge_at(es[k])).vertex_index;
        &&& fin.live_vertex(v)
        &&& fin.vertex_at(v).point_index == points[k]
    } by {
        assert(fin.edge_at(es[k]).vertex_index == verts[k]);
        assert(mb.live_vertex(verts[k]));
        assert(mb.vertex_at(verts[k]).point_index == points[k]);
    }
    assert forall|k: int| 0 <= k < nn implies {
        let t = (#[trigger] fin.edge_at(es[k])).twin_index;
        &&& fin.live_edge(t)
        &&& fin.edge_at(t).twin_index == es[k]
        &&& t.offset != es[k].offset
    } by {
        assert(fin.edge_at(es[k]).twin_index == twins[k]);
        assert(fin.live_edge(twins[k]));
        assert(fin.edge_at(twins[k]).twin_index == es[k]);
    }
    assert forall|k: int| 0 <= k < nn implies
        (#[trigger] fin.kernel.edge_buffer.slots()[es[k].offset as int]).props.tag == 0 by {
        assert(fin.kernel.edge_buffer.slots()[es[k].offset as int].props
            == mb.kernel.edge_buffer.slots()[es[k].offset as int].props);
    }
}

/// The canonical `next` walk of a fresh ring is the ring itself, so the
/// ring facts carry over to the walk that `face_ring_spec` speaks of.
#[verifier::spinoff_prover]
proof fn lemma_ring_chain(fin: Mesh, f: FaceIndex, points: Seq<PointIndex>, es: Seq<EdgeIndex>)
    requires
        es.len() == points.len(),
        es.len() >= 1,
        fin.face_loop(f, es),
        forall|k: int| 0 <= k < es.len() ==> #[trigger] fin.boundary_spec(es[k]),
        forall|k: int| 0 <= k < es.len() ==> {
            let v = (#[trigger] fin.edge_at(es[k])).vertex_index;
            &&& fin.live_vertex(v)
            &&& fin.vertex_at(v).point_index == points[k]
        },
        forall|k: int| 0 <= k < es.len() ==> {
            let t = (#[trigger] fin.edge_at(es[k])).twin_index;
            &&& fin.live_edge(t)
            &&& fin.edge_at(t).twin_index == es[k]
            &&& t.offset != es[k].offset
        },
        forall|k: int| 0 <= k < es.len()
            ==> (#[trigger] fin.kernel.edge_buffer.slots()[es[k].offset as int]).props.tag
                == 0,
    ensures
        face_ring_spec(fin, f, points),
{
    crate::mesh::lemma_next_chain_of_loop(fin, es);
    assert(fin.root_edge_spec(f) == es[0]);
    let chain = crate::mesh::next_chain(fin, fin.root_edge_spec(f), points.len());
    assert(chain == es);
    assert(fin.face_loop(f, chain));
    assert forall|i: int| 0 <= i < chain.len() implies {
        let v = (#[trigger] fin.edge_at(chain[i])).vertex_index;
        &&& fin.live_vertex(v)
        &&& fin.vertex_at(v).point_index == points[i]
    } by {
        assert(chain[i] == es[i]);
        let v = fin.edge_at(es[i]).vertex_index;
        assert(fin.live_vertex(v) && fin.vertex_at(v).point_index == points[i]);
    }
    assert forall|i: int| 0 <= i < chain.len() implies {
        let t = (#[trigger] fin.edge_at(chain[i])).twin_index;
        &&& fin.live_edge(t)
        &&& fin.edge_at(t).twin_index == chain[i]
        &&& t.offset != chain[i].offset
    } by {
        assert(chain[i] == es[i]);
        let t = fin.edge_at(es[i]).twin_index;
        assert(fin.live_edge(t) && fin.edge_at(t).twin_index == es[i]
            && t.offset != es[i].offset);
    }
    assert forall|i: int| 0 <= i < chain.len()
        implies #[trigger] fin.boundary_spec(chain[i]) by {
        assert(chain[i] == es[i]);
        assert(fin.boundary_spec(es[i]));
    }
    assert forall|i: int| 0 <= i < chain.len() implies
        (#[trigger] fin.kernel.edge_buffer.slots()[chain[i].offset as int]).props.tag
            == 0 by {
        assert(chain[i] == es[i]);
        assert(fin.kernel.edge_buffer.slots()[es[i].offset as int].props.tag == 0);
    }
    assert(face_ring_spec(fin, f, points)) by {
        reveal(face_ring_spec);
    }
}

/// The canonical `next` walk of a ring wired over existing vertices is the
/// ring itself, so the ring facts carry over to the walk that
/// `vertex_ring_spec` speaks of.
#[verifier::spinoff_prover]
pub(crate) proof fn lemma_ring_chain_verts(
    fin: Mesh,
    f: FaceIndex,
    verts: Seq<VertexIndex>,
    es: Seq<EdgeIndex>,
)
    requires
        es.len() == verts.len(),
        es.len() >= 1,
        fin.face_loop(f, es),
        forall|k: int| 0 <= k < es.len() ==> #[trigger] fin.boundary_spec(es[k]),
        forall|k: int| 0 <= k < es.len()
            ==> (#[trigger] fin.edge_at(es[k])).vertex_index == verts[k],
        forall|k: int| 0 <= k < es.len() ==> {
            let t = (#[trigger] fin.edge_at(es[k])).twin_index;
            &&& fin.live_edge(t)
            &&& fin.edge_at(t).twin_index == es[k]
            &&& t.offset != es[k].offset
        },
        forall|k: int| 0 <= k < es.len()
            ==> (#[trigger] fin.kernel.edge_buffer.slots()[es[k].offset as int]).props.tag
                == 0,
    ensures
        vertex_ring_spec(fin, f, verts),
{
    crate::mesh::lemma_next_chain_of_loop(fin, es);
    assert(fin.root_edge_spec(f) == es[0]);
    let chain = crate::mesh::next_chain(fin, fin.root_edge_spec(f), verts.len());
    assert(chain == es);
    assert(fin.face_loop(f, chain));
    assert forall|i: int| 0 <= i < chain.len()
        implies (#[trigger] fin.edge_at(chain[i])).vertex_index == verts[i] by {
        assert(chain[i] == es[i]);
        assert(fin.edge_at(es[i]).vertex_index == verts[i]);
    }
    assert forall|i: int| 0 <= i < chain.len() implies {
        let t = (#[trigger] fin.edge_at(chain[i])).twin_index;
        &&& fin.live_edge(t)
        &&& fin.edge_at(t).twin_index == chain[i]
        &&& t.offset != chain[i].offset
    } by {
        assert(chain[i] == es[i]);
        let t = fin.edge_at(es[i]).twin_index;
        assert(fin.live_edge(t) && fin.edge_at(t).twin_index == es[i]
            && t.offset != es[i].offset);
    }
    assert forall|i: int| 0 <= i < chain.len()
        implies #[trigger] fin.boundary_spec(chain[i]) by {
        assert(chain[i] == es[i]);
        assert(fin.boundary_spec(es[i]));
    }
    assert forall|i: int| 0 <= i < chain.len() implies
        (#[trigger] fin.kernel.edge_buffer.slots()[chain[i].offset as int]).props.tag
            == 0 by {
        assert(chain[i] == es[i]);
        assert(fin.kernel.edge_buffer.slots()[es[i].offset as int].props.tag == 0);
    }
    assert(vertex_ring_spec(fin, f, verts)) by {
        reveal(vertex_ring_spec);
    }
}

} // verus!
