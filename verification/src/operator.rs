//! Operator interface: whole-face editing steps that validate their
//! arguments instead of asking callers to, reporting bad input as a value.

use vstd::prelude::*;
use crate::buffer::active_count;
use crate::handles::{EdgeIndex, FaceIndex, PointIndex, VertexIndex};
use crate::mesh::Mesh;
use crate::operations::face_ring_spec;
use crate::elements::Face;
use crate::traits::AddElement;
use crate::utils::assign_face_to_loop;

verus! {

/// What an operator reports when it cannot work with what it was given.
#[derive(Debug, Clone, Copy, PartialEq, Eq, Structural)]
pub enum OperatorError {
    InvalidArguments,
}

/// Appends one polygon to a mesh, from points, from existing vertices, or
/// from existing edges.
#[derive(Debug)]
pub struct PolyAppend {}

impl PolyAppend {
    pub fn new() -> (r: PolyAppend)
        ensures
            r == (PolyAppend {}),
    {
        PolyAppend {}
    }

    /// Builds a face over the given points: the checked entry to
    /// `Mesh::add_face`. Fewer than three points are invalid arguments and
    /// leave the mesh untouched.
    pub fn from_point_slice(mesh: &mut Mesh, points: &[PointIndex])
        -> (r: Result<FaceIndex, OperatorError>)
        requires
            old(mesh).wf(),
            old(mesh).kernel.face_buffer.slots().len() < u32::MAX as int,
            old(mesh).kernel.vertex_buffer.slots().len() + points@.len() < u32::MAX as int,
            old(mesh).kernel.edge_buffer.slots().len() + 2 * points@.len() < u32::MAX as int,
        ensures
            final(mesh).wf(),
            final(mesh).tag == old(mesh).tag,
            r is Err <==> points@.len() < 3,
            r is Err ==> *final(mesh) == *old(mesh),
            r matches Ok(f) ==> {
                &&& final(mesh).live_face(f)
                &&& face_ring_spec(*final(mesh), f, points@)
                &&& active_count(final(mesh).kernel.face_buffer.slots())
                    == active_count(old(mesh).kernel.face_buffer.slots()) + 1
                &&& active_count(final(mesh).kernel.vertex_buffer.slots())
                    == active_count(old(mesh).kernel.vertex_buffer.slots()) + points@.len()
                &&& active_count(final(mesh).kernel.edge_buffer.slots())
                    == active_count(old(mesh).kernel.edge_buffer.slots()) + 2 * points@.len()
            },
    {
        if points.len() < 3 {
            return Err(OperatorError::InvalidArguments);
        }
        Ok(mesh.add_face(points))
    }

    /// Builds a face over existing vertices by wiring a fresh ring of edge
    /// pairs through them: one new edge pair per side, the loop of outgoing
    /// edges wired closed and owned by a fresh face rooted at the first
    /// side, every side boundary. Fewer than three vertices, or one that
    /// does not resolve, are invalid arguments and leave the mesh untouched.
    #[verifier::rlimit(50)]
    #[verifier::spinoff_prover]
    pub fn from_vertex_slice(mesh: &mut Mesh, verts: &[VertexIndex])
        -> (r: Result<FaceIndex, OperatorError>)
        requires
            old(mesh).wf(),
            old(mesh).kernel.face_buffer.slots().len() < u32::MAX as int,
            old(mesh).kernel.edge_buffer.slots().len() + 2 * verts@.len() < u32::MAX as int,
        ensures
            final(mesh).wf(),
            final(mesh).tag == old(mesh).tag,
            final(mesh).kernel.point_buffer == old(mesh).kernel.point_buffer,
            r is Err <==> (verts@.len() < 3
                || exists|j: int| 0 <= j < verts@.len()
                    && !old(mesh).live_vertex(#[trigger] verts@[j])),
            r is Err ==> *final(mesh) == *old(mesh),
            r matches Ok(f) ==> {
                &&& final(mesh).live_face(f)
                &&& active_count(final(mesh).kernel.face_buffer.slots())
                    == active_count(old(mesh).kernel.face_buffer.slots()) + 1
                &&& active_count(final(mesh).kernel.edge_buffer.slots())
                    == active_count(old(mesh).kernel.edge_buffer.slots()) + 2 * verts@.len()
                &&& active_count(final(mesh).kernel.vertex_buffer.slots())
                    == active_count(old(mesh).kernel.vertex_buffer.slots())
                &&& final(mesh).kernel.edge_buffer.slots().len()
                    >= old(mesh).kernel.edge_buffer.slots().len()
                &&& final(mesh).kernel.edge_buffer.slots().len()
                    <= old(mesh).kernel.edge_buffer.slots().len() + 2 * verts@.len()
                &&& final(mesh).kernel.vertex_buffer.slots().len()
                    == old(mesh).kernel.vertex_buffer.slots().len()
                &&& final(mesh).kernel.face_buffer.slots().len()
                    >= old(mesh).kernel.face_buffer.slots().len()
                &&& final(mesh).kernel.face_buffer.slots().len()
                    <= old(mesh).kernel.face_buffer.slots().len() + 1
                &&& (forall|o: int| old(mesh).kernel.edge_buffer.active(o)
                    ==> #[trigger] final(mesh).kernel.edge_buffer.slots()[o]
                        == old(mesh).kernel.edge_buffer.slots()[o])
                &&& (forall|o: int| old(mesh).kernel.face_buffer.active(o)
                    ==> #[trigger] final(mesh).kernel.face_buffer.slots()[o]
                        == old(mesh).kernel.face_buffer.slots()[o])
                &&& (forall|o: int| old(mesh).kernel.vertex_buffer.active(o)
                    && (forall|k: int| 0 <= k < verts@.len()
                        ==> (#[trigger] verts@[k]).offset != o)
                    ==> #[trigger] final(mesh).kernel.vertex_buffer.slots()[o]
                        == old(mesh).kernel.vertex_buffer.slots()[o])
                &&& crate::operations::vertex_ring_spec(*final(mesh), f, verts@)
            },
    {
        if verts.len() < 3 {
            return Err(OperatorError::InvalidArguments);
        }
        let mut owned: Vec<VertexIndex> = Vec::new();
        let mut i: usize = 0;
        while i < verts.len()
            invariant
                old(mesh).wf(),
                *mesh == *old(mesh),
                i <= verts@.len(),
                owned@ == verts@.subrange(0, i as int),
                forall|j: int| 0 <= j < i ==> old(mesh).live_vertex(#[trigger] verts@[j]),
            decreases verts.len() - i,
        {
            if !mesh.kernel.vertex_buffer.contains(&verts[i]) {
                return Err(OperatorError::InvalidArguments);
            }
            owned.push(verts[i]);
            proof {
                assert(owned@ =~= verts@.subrange(0, i + 1 as int));
            }
            i = i + 1;
        }
        proof {
            assert(owned@ =~= verts@);
        }
        let (es, twins) = mesh.wire_ring(&owned);
        let ghost mb = *mesh;
        let root = es[0];
        let f = mesh.add(Face::new(root));
        let ghost mf = *mesh;
        mesh.claim_ring(&es, twins, f);
        proof {
            let ghost points: Seq<crate::handles::PointIndex> = Seq::new(verts@.len(),
                |k: int| mb.vertex_at(verts@[k]).point_index);
            assert(mf.kernel.edge_buffer == mb.kernel.edge_buffer);
            assert(mf.kernel.vertex_buffer == mb.kernel.vertex_buffer);
            assert(mesh.kernel.vertex_buffer == mf.kernel.vertex_buffer);
            assert(mesh.kernel.face_buffer == mf.kernel.face_buffer);
            assert(mf.live_face(f));
            assert(mf.face_at(f) == (crate::elements::Face { edge_index: root }));
            assert(root == es@[0]);
            assert forall|o: int| old(mesh).kernel.edge_buffer.active(o)
                implies #[trigger] mesh.kernel.edge_buffer.slots()[o]
                    == old(mesh).kernel.edge_buffer.slots()[o] by {
                assert(mb.kernel.edge_buffer.slots()[o]
                    == old(mesh).kernel.edge_buffer.slots()[o]);
                assert(mf.kernel.edge_buffer.slots()[o] == mb.kernel.edge_buffer.slots()[o]);
                assert forall|k: int| 0 <= k < es@.len()
                    implies (#[trigger] es@[k]).offset != o by {
                    assert(!old(mesh).kernel.edge_buffer.active(es@[k].offset as int));
                }
                assert(mesh.kernel.edge_buffer.slots()[o]
                    == mf.kernel.edge_buffer.slots()[o]);
            }
            assert forall|o: int| old(mesh).kernel.face_buffer.active(o)
                implies #[trigger] mesh.kernel.face_buffer.slots()[o]
                    == old(mesh).kernel.face_buffer.slots()[o] by {
                assert(mb.kernel.face_buffer.slots()[o]
                    == old(mesh).kernel.face_buffer.slots()[o]);
                assert(mb.kernel.face_buffer.active(o));
                assert(mf.kernel.face_buffer.slots()[o] == mb.kernel.face_buffer.slots()[o]);
            }
            assert forall|o: int| old(mesh).kernel.vertex_buffer.active(o)
                && (forall|k: int| 0 <= k < verts@.len()
                    ==> (#[trigger] verts@[k]).offset != o)
                implies #[trigger] mesh.kernel.vertex_buffer.slots()[o]
                    == old(mesh).kernel.vertex_buffer.slots()[o] by {
                assert(owned@ == verts@);
                assert(mb.kernel.vertex_buffer.slots()[o]
                    == old(mesh).kernel.vertex_buffer.slots()[o]);
            }
            crate::operations::lemma_assemble_ring(mb, mf, *mesh,
                points, verts@, es@, twins@, f);
            crate::operations::lemma_ring_chain_verts(*mesh, f, verts@, es@);
        }
        Ok(f)
    }

    /// Builds a face over an existing chain of edges by wiring them in the
    /// order given and claiming the loop: no new edges come to be, and the
    /// fresh face is rooted at the first edge given. Fewer than three
    /// edges, or one that does not resolve, are invalid arguments and leave
    /// the mesh untouched.
    #[verifier::rlimit(40)]
    #[verifier::spinoff_prover]
    pub fn from_edge_slice(mesh: &mut Mesh, edges: &[EdgeIndex])
        -> (r: Result<FaceIndex, OperatorError>)
        requires
            old(mesh).wf(),
            old(mesh).kernel.face_buffer.slots().len() < u32::MAX as int,
        ensures
            final(mesh).wf(),
            final(mesh).tag == old(mesh).tag,
            final(mesh).kernel.point_buffer == old(mesh).kernel.point_buffer,
            r is Err <==> (edges@.len() < 3
                || exists|j: int| 0 <= j < edges@.len()
                    && !old(mesh).live_edge(#[trigger] edges@[j])),
            r is Err ==> *final(mesh) == *old(mesh),
            r matches Ok(f) ==> {
                &&& final(mesh).live_face(f)
                &&& final(mesh).root_edge_spec(f) == edges@[0]
                &&& active_count(final(mesh).kernel.face_buffer.slots())
                    == active_count(old(mesh).kernel.face_buffer.slots()) + 1
                &&& active_count(final(mesh).kernel.edge_buffer.slots())
                    == active_count(old(mesh).kernel.edge_buffer.slots())
                &&& active_count(final(mesh).kernel.vertex_buffer.slots())
                    == active_count(old(mesh).kernel.vertex_buffer.slots())
                &&& (forall|o: int| 0 <= o < old(mesh).kernel.edge_buffer.slots().len()
                    ==> (#[trigger] final(mesh).kernel.edge_buffer.slots()[o]).props
                            == old(mesh).kernel.edge_buffer.slots()[o].props
                        && final(mesh).kernel.edge_buffer.slots()[o].value.twin_index
                            == old(mesh).kernel.edge_buffer.slots()[o].value.twin_index
                        && final(mesh).kernel.edge_buffer.slots()[o].value.vertex_index
                            == old(mesh).kernel.edge_buffer.slots()[o].value.vertex_index)
                &&& (forall|j: int| 0 <= j < edges@.len()
                    ==> final(mesh).live_edge(#[trigger] edges@[j]))
            },
    {
        if edges.len() < 3 {
            return Err(OperatorError::InvalidArguments);
        }
        let mut i: usize = 0;
        while i < edges.len()
            invariant
                old(mesh).wf(),
                *mesh == *old(mesh),
                i <= edges@.len(),
                forall|j: int| 0 <= j < i ==> old(mesh).live_edge(#[trigger] edges@[j]),
            decreases edges.len() - i,
        {
            if !mesh.kernel.edge_buffer.contains(&edges[i]) {
                return Err(OperatorError::InvalidArguments);
            }
            i = i + 1;
        }
        let n = edges.len();
        let mut i: usize = 0;
        while i < n
            invariant
                mesh.wf(),
                mesh.tag == old(mesh).tag,
                n == edges@.len(),
                3 <= n,
                i <= n,
                mesh.kernel.face_buffer == old(mesh).kernel.face_buffer,
                mesh.kernel.point_buffer == old(mesh).kernel.point_buffer,
                mesh.kernel.vertex_buffer == old(mesh).kernel.vertex_buffer,
                active_count(mesh.kernel.edge_buffer.slots())
                    == active_count(old(mesh).kernel.edge_buffer.slots()),
                mesh.kernel.edge_buffer.slots().len()
                    == old(mesh).kernel.edge_buffer.slots().len(),
                forall|j: int| 0 <= j < n ==> old(mesh).live_edge(#[trigger] edges@[j]),
                forall|j: int| 0 <= j < n ==> #[trigger] mesh.live_edge(edges@[j]),
                forall|o: int| 0 <= o < old(mesh).kernel.edge_buffer.slots().len()
                    ==> (#[trigger] mesh.kernel.edge_buffer.slots()[o]).props
                        == old(mesh).kernel.edge_buffer.slots()[o].props,
                forall|o: int| 0 <= o < old(mesh).kernel.edge_buffer.slots().len()
                    ==> (#[trigger] mesh.kernel.edge_buffer.slots()[o]).value.twin_index
                            == old(mesh).kernel.edge_buffer.slots()[o].value.twin_index
                        && mesh.kernel.edge_buffer.slots()[o].value.face_index
                            == old(mesh).kernel.edge_buffer.slots()[o].value.face_index
                        && mesh.kernel.edge_buffer.slots()[o].value.vertex_index
                            == old(mesh).kernel.edge_buffer.slots()[o].value.vertex_index,
            decreases n - i,
        {
            let ghost pre = *mesh;
            let a = edges[i];
            let b = if i + 1 == n { edges[0] } else { edges[i + 1] };
            crate::utils::connect_edges(mesh, a, b);
            proof {
                assert forall|j: int| 0 <= j < n implies #[trigger] mesh.live_edge(edges@[j]) by {
                    assert(pre.live_edge(edges@[j]));
                    assert(mesh.kernel.edge_buffer.slots()[edges@[j].offset as int].props
                        == pre.kernel.edge_buffer.slots()[edges@[j].offset as int].props);
                }
            }
            i = i + 1;
        }
        let f = mesh.add(Face::new(edges[0]));
        let ghost before_assign = *mesh;
        assign_face_to_loop(mesh, edges[0], f);
        proof {
            assert(before_assign.live_face(f));
            assert(mesh.root_edge_spec(f) == edges@[0]);
            assert forall|o: int| 0 <= o < old(mesh).kernel.edge_buffer.slots().len()
                implies (#[trigger] mesh.kernel.edge_buffer.slots()[o]).props
                        == old(mesh).kernel.edge_buffer.slots()[o].props
                    && mesh.kernel.edge_buffer.slots()[o].value.twin_index
                        == old(mesh).kernel.edge_buffer.slots()[o].value.twin_index
                    && mesh.kernel.edge_buffer.slots()[o].value.vertex_index
                        == old(mesh).kernel.edge_buffer.slots()[o].value.vertex_index by {
                assert(mesh.kernel.edge_buffer.slots()[o].value
                        == before_assign.kernel.edge_buffer.slots()[o].value
                    || mesh.kernel.edge_buffer.slots()[o].value
                        == crate::elements::edge_with_face(
                            before_assign.kernel.edge_buffer.slots()[o].value, f));
            }
            assert forall|j: int| 0 <= j < edges@.len()
                implies mesh.live_edge(#[trigger] edges@[j]) by {
                assert(old(mesh).live_edge(edges@[j]));
                assert(mesh.kernel.edge_buffer.slots()[edges@[j].offset as int].props
                    == old(mesh).kernel.edge_buffer.slots()[edges@[j].offset as int].props);
            }
        }
        Ok(f)
    }
}

} // verus!
