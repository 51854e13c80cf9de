//! Topology construction helpers: the primitive wiring steps a half-edge
//! mesh is built from. Every helper follows the proxy discipline: a handle
//! that does not resolve makes the corresponding write a no-op instead of a
//! failure, so construction code can call them speculatively.

use vstd::prelude::*;
use crate::buffer::{active_count, resolves_in, set_value_in, Slot};
use crate::elements::{
    edge_with_face, edge_with_next, edge_with_prev, edge_with_twin, edge_with_vertex,
    vertex_with_edge, Edge, Vertex,
};
use crate::handles::{EdgeIndex, Index, VertexIndex};
use crate::mesh::{invalid, Mesh};
use crate::traits::AddElement;

verus! {

/// The edge slots after `connect_edges(prev, next)`: first `prev.next_index`
/// is pointed at `next` where `prev` resolves, then `next.prev_index` is
/// pointed at `prev` where `next` resolves.
pub open spec fn connect_spec(s: Seq<Slot<Edge>>, prev: EdgeIndex, next: EdgeIndex)
    -> Seq<Slot<Edge>> {
    let s1 = if resolves_in(s, prev) {
        set_value_in(s, prev.offset as int, edge_with_next(s[prev.offset as int].value, next))
    } else {
        s
    };
    if resolves_in(s1, next) {
        set_value_in(s1, next.offset as int, edge_with_prev(s1[next.offset as int].value, prev))
    } else {
        s1
    }
}

/// Points `v`'s outgoing edge at `e`, where `v` resolves.
pub(crate) fn set_vertex_edge(mesh: &mut Mesh, v: VertexIndex, e: EdgeIndex)
    requires
        old(mesh).wf(),
    ensures
        final(mesh).wf(),
        final(mesh).tag == old(mesh).tag,
        final(mesh).kernel.edge_buffer == old(mesh).kernel.edge_buffer,
        final(mesh).kernel.face_buffer == old(mesh).kernel.face_buffer,
        final(mesh).kernel.point_buffer == old(mesh).kernel.point_buffer,
        final(mesh).kernel.vertex_buffer.free() == old(mesh).kernel.vertex_buffer.free(),
        active_count(final(mesh).kernel.vertex_buffer.slots())
            == active_count(old(mesh).kernel.vertex_buffer.slots()),
        final(mesh).kernel.vertex_buffer.slots() == (if old(mesh).live_vertex(v) {
            set_value_in(old(mesh).kernel.vertex_buffer.slots(), v.offset as int,
                vertex_with_edge(old(mesh).vertex_at(v), e))
        } else {
            old(mesh).kernel.vertex_buffer.slots()
        }),
{
    let current = match mesh.kernel.vertex_buffer.get(&v) {
        Some(vertex) => *vertex,
        None => { return; },
    };
    mesh.kernel.vertex_buffer.set_value(v, Vertex { edge_index: e, point_index: current.point_index });
}

/// Points `e`'s vertex at `v`, where `e` resolves.
pub(crate) fn set_edge_vertex(mesh: &mut Mesh, e: EdgeIndex, v: VertexIndex)
    requires
        old(mesh).wf(),
    ensures
        final(mesh).wf(),
        final(mesh).tag == old(mesh).tag,
        final(mesh).kernel.vertex_buffer == old(mesh).kernel.vertex_buffer,
        final(mesh).kernel.face_buffer == old(mesh).kernel.face_buffer,
        final(mesh).kernel.point_buffer == old(mesh).kernel.point_buffer,
        final(mesh).kernel.edge_buffer.free() == old(mesh).kernel.edge_buffer.free(),
        final(mesh).kernel.edge_buffer.slots() == (if old(mesh).live_edge(e) {
            set_value_in(old(mesh).kernel.edge_buffer.slots(), e.offset as int,
                edge_with_vertex(old(mesh).edge_at(e), v))
        } else {
            old(mesh).kernel.edge_buffer.slots()
        }),
{
    let current = match mesh.kernel.edge_buffer.get(&e) {
        Some(edge) => *edge,
        None => { return; },
    };
    mesh.kernel.edge_buffer.set_value(e, edge_vertex_value(current, v));
}

/// The exec twin of `edge_with_vertex`.
fn edge_vertex_value(e: Edge, v: VertexIndex) -> (r: Edge)
    ensures
        r == edge_with_vertex(e, v),
{
    Edge {
        twin_index: e.twin_index,
        next_index: e.next_index,
        prev_index: e.prev_index,
        face_index: e.face_index,
        vertex_index: v,
    }
}

/// Points `e`'s face at `f`, where `e` resolves.
pub(crate) fn set_edge_face(mesh: &mut Mesh, e: EdgeIndex, f: crate::handles::FaceIndex)
    requires
        old(mesh).wf(),
    ensures
        final(mesh).wf(),
        final(mesh).tag == old(mesh).tag,
        final(mesh).kernel.vertex_buffer == old(mesh).kernel.vertex_buffer,
        final(mesh).kernel.face_buffer == old(mesh).kernel.face_buffer,
        final(mesh).kernel.point_buffer == old(mesh).kernel.point_buffer,
        final(mesh).kernel.edge_buffer.free() == old(mesh).kernel.edge_buffer.free(),
        final(mesh).kernel.edge_buffer.slots() == (if old(mesh).live_edge(e) {
            set_value_in(old(mesh).kernel.edge_buffer.slots(), e.offset as int,
                crate::elements::edge_with_face(old(mesh).edge_at(e), f))
        } else {
            old(mesh).kernel.edge_buffer.slots()
        }),
{
    let current = match mesh.kernel.edge_buffer.get(&e) {
        Some(edge) => *edge,
        None => { return; },
    };
    mesh.kernel.edge_buffer.set_value(e, Edge {
        twin_index: current.twin_index,
        next_index: current.next_index,
        prev_index: current.prev_index,
        face_index: f,
        vertex_index: current.vertex_index,
    });
}

/// Points `f`'s root edge at `e`, where `f` resolves.
pub(crate) fn set_face_root(mesh: &mut Mesh, f: crate::handles::FaceIndex, e: EdgeIndex)
    requires
        old(mesh).wf(),
    ensures
        final(mesh).wf(),
        final(mesh).tag == old(mesh).tag,
        final(mesh).kernel.vertex_buffer == old(mesh).kernel.vertex_buffer,
        final(mesh).kernel.edge_buffer == old(mesh).kernel.edge_buffer,
        final(mesh).kernel.point_buffer == old(mesh).kernel.point_buffer,
        final(mesh).kernel.face_buffer.free() == old(mesh).kernel.face_buffer.free(),
        final(mesh).kernel.face_buffer.slots() == (if old(mesh).live_face(f) {
            set_value_in(old(mesh).kernel.face_buffer.slots(), f.offset as int,
                (crate::elements::Face { edge_index: e }))
        } else {
            old(mesh).kernel.face_buffer.slots()
        }),
{
    if mesh.kernel.face_buffer.contains(&f) {
        mesh.kernel.face_buffer.set_value(f, crate::elements::Face { edge_index: e });
    }
}

/// Associates a previous and next edge: `prev` is wired forward to `next`,
/// and `next` backward to `prev`. A side whose handle does not resolve is
/// left alone.
pub fn connect_edges(mesh: &mut Mesh, prev: EdgeIndex, next: EdgeIndex)
    requires
        old(mesh).wf(),
    ensures
        final(mesh).wf(),
        final(mesh).tag == old(mesh).tag,
        final(mesh).kernel.vertex_buffer == old(mesh).kernel.vertex_buffer,
        final(mesh).kernel.face_buffer == old(mesh).kernel.face_buffer,
        final(mesh).kernel.point_buffer == old(mesh).kernel.point_buffer,
        final(mesh).kernel.edge_buffer.free() == old(mesh).kernel.edge_buffer.free(),
        active_count(final(mesh).kernel.edge_buffer.slots())
            == active_count(old(mesh).kernel.edge_buffer.slots()),
        final(mesh).kernel.edge_buffer.slots().len()
            == old(mesh).kernel.edge_buffer.slots().len(),
        final(mesh).kernel.edge_buffer.slots()
            == connect_spec(old(mesh).kernel.edge_buffer.slots(), prev, next),
        forall|o: int| 0 <= o < old(mesh).kernel.edge_buffer.slots().len()
            ==> (#[trigger] final(mesh).kernel.edge_buffer.slots()[o]).props
                    == old(mesh).kernel.edge_buffer.slots()[o].props
                && final(mesh).kernel.edge_buffer.slots()[o].value.twin_index
                    == old(mesh).kernel.edge_buffer.slots()[o].value.twin_index
                && final(mesh).kernel.edge_buffer.slots()[o].value.face_index
                    == old(mesh).kernel.edge_buffer.slots()[o].value.face_index
                && final(mesh).kernel.edge_buffer.slots()[o].value.vertex_index
                    == old(mesh).kernel.edge_buffer.slots()[o].value.vertex_index,
        forall|o: int| 0 <= o < old(mesh).kernel.edge_buffer.slots().len()
            && o != prev.offset && o != next.offset
            ==> (#[trigger] final(mesh).kernel.edge_buffer.slots()[o])
                == old(mesh).kernel.edge_buffer.slots()[o],
{
    if let Some(edge) = mesh.kernel.edge_buffer.get(&prev) {
        let updated = Edge {
            twin_index: edge.twin_index,
            next_index: next,
            prev_index: edge.prev_index,
            face_index: edge.face_index,
            vertex_index: edge.vertex_index,
        };
        mesh.kernel.edge_buffer.set_value(prev, updated);
    }
    if let Some(edge) = mesh.kernel.edge_buffer.get(&next) {
        let updated = Edge {
            twin_index: edge.twin_index,
            next_index: edge.next_index,
            prev_index: prev,
            face_index: edge.face_index,
            vertex_index: edge.vertex_index,
        };
        mesh.kernel.edge_buffer.set_value(next, updated);
    }
}

/// The atomic wiring step of the proxy layer: `prev` is wired forward to
/// `next` and `next` backward to `prev`; where either handle does not
/// resolve, nothing at all changes, so a speculative call on a half-built
/// loop never leaves one side dangling.
pub fn connect_to(mesh: &mut Mesh, prev: EdgeIndex, next: EdgeIndex)
    requires
        old(mesh).wf(),
    ensures
        final(mesh).wf(),
        final(mesh).tag == old(mesh).tag,
        final(mesh).kernel.vertex_buffer == old(mesh).kernel.vertex_buffer,
        final(mesh).kernel.face_buffer == old(mesh).kernel.face_buffer,
        final(mesh).kernel.point_buffer == old(mesh).kernel.point_buffer,
        final(mesh).kernel.edge_buffer.free() == old(mesh).kernel.edge_buffer.free(),
        old(mesh).live_edge(prev) && old(mesh).live_edge(next)
            ==> final(mesh).kernel.edge_buffer.slots()
                == connect_spec(old(mesh).kernel.edge_buffer.slots(), prev, next),
        !(old(mesh).live_edge(prev) && old(mesh).live_edge(next))
            ==> *final(mesh) == *old(mesh),
{
    if mesh.kernel.edge_buffer.contains(&prev) && mesh.kernel.edge_buffer.contains(&next) {
        connect_edges(mesh, prev, next);
    }
}

/// Associates a vertex and an outgoing edge with one another. A side whose
/// handle does not resolve is left alone.
pub fn assoc_vert_edge(mesh: &mut Mesh, vert: VertexIndex, edge: EdgeIndex)
    requires
        old(mesh).wf(),
    ensures
        final(mesh).wf(),
        final(mesh).tag == old(mesh).tag,
        final(mesh).kernel.face_buffer == old(mesh).kernel.face_buffer,
        final(mesh).kernel.point_buffer == old(mesh).kernel.point_buffer,
        final(mesh).kernel.vertex_buffer.slots() == (if old(mesh).live_vertex(vert) {
            set_value_in(old(mesh).kernel.vertex_buffer.slots(), vert.offset as int,
                vertex_with_edge(old(mesh).vertex_at(vert), edge))
        } else {
            old(mesh).kernel.vertex_buffer.slots()
        }),
        final(mesh).kernel.vertex_buffer.free() == old(mesh).kernel.vertex_buffer.free(),
        final(mesh).kernel.edge_buffer.slots() == (if old(mesh).live_edge(edge) {
            set_value_in(old(mesh).kernel.edge_buffer.slots(), edge.offset as int,
                edge_with_vertex(old(mesh).edge_at(edge), vert))
        } else {
            old(mesh).kernel.edge_buffer.slots()
        }),
        final(mesh).kernel.edge_buffer.free() == old(mesh).kernel.edge_buffer.free(),
{
    set_vertex_edge(mesh, vert, edge);
    set_edge_vertex(mesh, edge, vert);
}

/// Given two vertex indices, creates an adjacent edge pair: two fresh
/// half-edges, mutual twins, not yet wired into any loop or face, leaving
/// `v0` and `v1` respectively. Each vertex that resolves gets the new edge
/// leaving it as its outgoing edge.
pub fn build_full_edge(mesh: &mut Mesh, v0: VertexIndex, v1: VertexIndex) -> (e0: EdgeIndex)
    requires
        old(mesh).wf(),
        old(mesh).kernel.edge_buffer.slots().len() + 1 < u32::MAX as int,
    ensures
        final(mesh).wf(),
        final(mesh).tag == old(mesh).tag,
        final(mesh).kernel.face_buffer == old(mesh).kernel.face_buffer,
        final(mesh).kernel.point_buffer == old(mesh).kernel.point_buffer,
        final(mesh).live_edge(e0),
        active_count(final(mesh).kernel.edge_buffer.slots())
            == active_count(old(mesh).kernel.edge_buffer.slots()) + 2,
        final(mesh).kernel.edge_buffer.slots().len()
            <= old(mesh).kernel.edge_buffer.slots().len() + 2,
        final(mesh).kernel.edge_buffer.slots().len()
            >= old(mesh).kernel.edge_buffer.slots().len(),
        ({
            let e1 = final(mesh).edge_at(e0).twin_index;
            &&& final(mesh).live_edge(e1)
            &&& e1.offset != e0.offset
            &&& !old(mesh).kernel.edge_buffer.active(e0.offset as int)
            &&& !old(mesh).kernel.edge_buffer.active(e1.offset as int)
            &&& final(mesh).kernel.edge_buffer.slots()[e0.offset as int].props.tag == 0
            &&& final(mesh).kernel.edge_buffer.slots()[e1.offset as int].props.tag == 0
            &&& final(mesh).edge_at(e0) == (Edge {
                twin_index: e1,
                next_index: invalid(),
                prev_index: invalid(),
                face_index: invalid(),
                vertex_index: v0,
            })
            &&& final(mesh).edge_at(e1) == (Edge {
                twin_index: e0,
                next_index: invalid(),
                prev_index: invalid(),
                face_index: invalid(),
                vertex_index: v1,
            })
            &&& (forall|o: int| 0 <= o < old(mesh).kernel.edge_buffer.slots().len()
                    && o != e0.offset && o != e1.offset
                    ==> final(mesh).kernel.edge_buffer.slots()[o]
                        == old(mesh).kernel.edge_buffer.slots()[o])
            &&& final(mesh).kernel.vertex_buffer.slots() == ({
                let s0 = old(mesh).kernel.vertex_buffer.slots();
                let s1 = if resolves_in(s0, v0) {
                    set_value_in(s0, v0.offset as int,
                        vertex_with_edge(s0[v0.offset as int].value, e0))
                } else {
                    s0
                };
                if resolves_in(s1, v1) {
                    set_value_in(s1, v1.offset as int,
                        vertex_with_edge(s1[v1.offset as int].value, e1))
                } else {
                    s1
                }
            })
        }),
        final(mesh).kernel.vertex_buffer.free() == old(mesh).kernel.vertex_buffer.free(),
        active_count(final(mesh).kernel.vertex_buffer.slots())
            == active_count(old(mesh).kernel.vertex_buffer.slots()),
        final(mesh).kernel.vertex_buffer.slots().len()
            == old(mesh).kernel.vertex_buffer.slots().len(),
{
    let e0: EdgeIndex = mesh.add(Edge {
        twin_index: Index::new(0),
        next_index: Index::new(0),
        prev_index: Index::new(0),
        face_index: Index::new(0),
        vertex_index: v0,
    });
    let e1: EdgeIndex = mesh.add(Edge {
        twin_index: e0,
        next_index: Index::new(0),
        prev_index: Index::new(0),
        face_index: Index::new(0),
        vertex_index: v1,
    });
    mesh.kernel.edge_buffer.set_value(e0, Edge {
        twin_index: e1,
        next_index: Index::new(0),
        prev_index: Index::new(0),
        face_index: Index::new(0),
        vertex_index: v0,
    });
    set_vertex_edge(mesh, v0, e0);
    set_vertex_edge(mesh, v1, e1);
    e0
}

/// Given an edge index and a vertex index, creates a new adjacent edge pair
/// connected to the specified edge: the new pair runs from the vertex the
/// given edge's twin leaves (the given edge's head) to `v1`, and the given
/// edge is wired forward to the new edge.
pub fn build_full_edge_from(mesh: &mut Mesh, prev: EdgeIndex, v1: VertexIndex)
    -> (e0: EdgeIndex)
    requires
        old(mesh).wf(),
        old(mesh).kernel.edge_buffer.slots().len() + 1 < u32::MAX as int,
    ensures
        final(mesh).wf(),
        final(mesh).tag == old(mesh).tag,
        final(mesh).kernel.face_buffer == old(mesh).kernel.face_buffer,
        final(mesh).kernel.point_buffer == old(mesh).kernel.point_buffer,
        final(mesh).kernel.vertex_buffer.free() == old(mesh).kernel.vertex_buffer.free(),
        active_count(final(mesh).kernel.vertex_buffer.slots())
            == active_count(old(mesh).kernel.vertex_buffer.slots()),
        final(mesh).kernel.vertex_buffer.slots().len()
            == old(mesh).kernel.vertex_buffer.slots().len(),
        final(mesh).kernel.edge_buffer.free().len()
            <= old(mesh).kernel.edge_buffer.free().len(),
        final(mesh).live_edge(e0),
        active_count(final(mesh).kernel.edge_buffer.slots())
            == active_count(old(mesh).kernel.edge_buffer.slots()) + 2,
        final(mesh).kernel.edge_buffer.slots().len()
            <= old(mesh).kernel.edge_buffer.slots().len() + 2,
        final(mesh).kernel.edge_buffer.slots().len()
            >= old(mesh).kernel.edge_buffer.slots().len(),
        ({
            let v0 = old(mesh).edge_vertex_spec(old(mesh).adjacent_spec(prev));
            let e1 = final(mesh).edge_at(e0).twin_index;
            &&& final(mesh).live_edge(e1)
            &&& e1.offset != e0.offset
            &&& !old(mesh).kernel.edge_buffer.active(e0.offset as int)
            &&& !old(mesh).kernel.edge_buffer.active(e1.offset as int)
            &&& final(mesh).edge_at(e0).twin_index == e1
            &&& final(mesh).edge_at(e0).prev_index == prev
            &&& final(mesh).edge_at(e0).face_index == invalid::<crate::handles::FaceKind>()
            &&& final(mesh).edge_at(e0).vertex_index == v0
            &&& final(mesh).edge_at(e1).twin_index == e0
            &&& final(mesh).edge_at(e1).prev_index == invalid::<crate::handles::EdgeKind>()
            &&& final(mesh).edge_at(e1).face_index == invalid::<crate::handles::FaceKind>()
            &&& final(mesh).edge_at(e1).vertex_index == v1
            &&& (old(mesh).live_edge(prev) ==> {
                &&& final(mesh).edge_at(e0).next_index == invalid::<crate::handles::EdgeKind>()
                &&& final(mesh).edge_at(e1).next_index == invalid::<crate::handles::EdgeKind>()
                &&& final(mesh).live_edge(prev)
                &&& final(mesh).edge_at(prev)
                    == edge_with_next(old(mesh).edge_at(prev), e0)
            })
            &&& (forall|o: int| 0 <= o < old(mesh).kernel.edge_buffer.slots().len()
                    && o != e0.offset && o != e1.offset && o != prev.offset
                    ==> final(mesh).kernel.edge_buffer.slots()[o]
                        == old(mesh).kernel.edge_buffer.slots()[o])
            &&& final(mesh).kernel.vertex_buffer.slots() == ({
                let s0 = old(mesh).kernel.vertex_buffer.slots();
                let s1 = if resolves_in(s0, v0) {
                    set_value_in(s0, v0.offset as int,
                        vertex_with_edge(s0[v0.offset as int].value, e0))
                } else {
                    s0
                };
                if resolves_in(s1, v1) {
                    set_value_in(s1, v1.offset as int,
                        vertex_with_edge(s1[v1.offset as int].value, e1))
                } else {
                    s1
                }
            })
        }),
{
    let pa = mesh.adjacent(prev);
    let v0 = mesh.edge_vertex(pa);
    let e0 = build_full_edge(mesh, v0, v1);
    connect_edges(mesh, prev, e0);
    e0
}

/// Creates the missing half of an edge: a fresh half-edge that is the twin
/// of `adjacent` and leaves `vertex`. Where they resolve, `adjacent` gets
/// the new edge as its twin and `vertex` gets it as its outgoing edge.
pub fn build_half_edge(mesh: &mut Mesh, adjacent: EdgeIndex, vertex: VertexIndex)
    -> (e0: EdgeIndex)
    requires
        old(mesh).wf(),
        old(mesh).kernel.edge_buffer.slots().len() < u32::MAX as int,
    ensures
        final(mesh).wf(),
        final(mesh).tag == old(mesh).tag,
        final(mesh).kernel.face_buffer == old(mesh).kernel.face_buffer,
        final(mesh).kernel.point_buffer == old(mesh).kernel.point_buffer,
        final(mesh).live_edge(e0),
        !old(mesh).kernel.edge_buffer.active(e0.offset as int),
        active_count(final(mesh).kernel.edge_buffer.slots())
            == active_count(old(mesh).kernel.edge_buffer.slots()) + 1,
        final(mesh).kernel.edge_buffer.slots().len()
            <= old(mesh).kernel.edge_buffer.slots().len() + 1,
        final(mesh).kernel.edge_buffer.slots().len()
            >= old(mesh).kernel.edge_buffer.slots().len(),
        ({
            // The one way the twin write can land on the new edge itself: the
            // caller's handle names the very slot the new edge reused.
            let hits_new = adjacent.offset == e0.offset
                && (adjacent.generation == 0 || adjacent.generation == e0.generation);
            &&& (!hits_new ==> final(mesh).edge_at(e0) == (Edge {
                twin_index: adjacent,
                next_index: invalid(),
                prev_index: invalid(),
                face_index: invalid(),
                vertex_index: vertex,
            }))
            &&& (hits_new ==> final(mesh).edge_at(e0) == (Edge {
                twin_index: e0,
                next_index: invalid(),
                prev_index: invalid(),
                face_index: invalid(),
                vertex_index: vertex,
            }))
            &&& (old(mesh).live_edge(adjacent) && adjacent.offset != e0.offset ==> {
                &&& final(mesh).live_edge(adjacent)
                &&& final(mesh).edge_at(adjacent)
                    == edge_with_twin(old(mesh).edge_at(adjacent), e0)
            })
            &&& (forall|o: int| 0 <= o < old(mesh).kernel.edge_buffer.slots().len()
                    && o != e0.offset && o != adjacent.offset
                    ==> final(mesh).kernel.edge_buffer.slots()[o]
                        == old(mesh).kernel.edge_buffer.slots()[o])
            &&& (!old(mesh).live_edge(adjacent) && adjacent.offset != e0.offset
                    ==> forall|o: int| 0 <= o < old(mesh).kernel.edge_buffer.slots().len()
                        && o != e0.offset
                        ==> final(mesh).kernel.edge_buffer.slots()[o]
                            == old(mesh).kernel.edge_buffer.slots()[o])
        }),
        final(mesh).kernel.vertex_buffer.slots() == (if old(mesh).live_vertex(vertex) {
            set_value_in(old(mesh).kernel.vertex_buffer.slots(), vertex.offset as int,
                vertex_with_edge(old(mesh).vertex_at(vertex), e0))
        } else {
            old(mesh).kernel.vertex_buffer.slots()
        }),
        final(mesh).kernel.vertex_buffer.free() == old(mesh).kernel.vertex_buffer.free(),
        active_count(final(mesh).kernel.vertex_buffer.slots())
            == active_count(old(mesh).kernel.vertex_buffer.slots()),
        final(mesh).kernel.vertex_buffer.slots().len()
            == old(mesh).kernel.vertex_buffer.slots().len(),
{
    let e0: EdgeIndex = mesh.add(Edge {
        twin_index: adjacent,
        next_index: Index::new(0),
        prev_index: Index::new(0),
        face_index: Index::new(0),
        vertex_index: vertex,
    });
    if let Some(edge) = mesh.kernel.edge_buffer.get(&adjacent) {
        let updated = Edge {
            twin_index: e0,
            next_index: edge.next_index,
            prev_index: edge.prev_index,
            face_index: edge.face_index,
            vertex_index: edge.vertex_index,
        };
        mesh.kernel.edge_buffer.set_value(adjacent, updated);
    }
    set_vertex_edge(mesh, vertex, e0);
    e0
}

/// Creates a new edge pair between the head of `prev` and the origin of
/// `next`, wiring `prev -> new -> next`. Where either end cannot be
/// discovered (the twin of `prev`, or `next`, does not resolve) nothing is
/// built and the invalid handle comes back.
pub fn close_edge_loop(mesh: &mut Mesh, prev: EdgeIndex, next: EdgeIndex) -> (e0: EdgeIndex)
    requires
        old(mesh).wf(),
        old(mesh).kernel.edge_buffer.slots().len() + 1 < u32::MAX as int,
    ensures
        final(mesh).wf(),
        final(mesh).tag == old(mesh).tag,
        final(mesh).kernel.face_buffer == old(mesh).kernel.face_buffer,
        final(mesh).kernel.point_buffer == old(mesh).kernel.point_buffer,
        !(old(mesh).live_edge(old(mesh).adjacent_spec(prev)) && old(mesh).live_edge(next)) ==> {
            &&& e0.offset == 0 && e0.generation == 0
            &&& final(mesh).kernel == old(mesh).kernel
        },
        old(mesh).live_edge(old(mesh).adjacent_spec(prev)) && old(mesh).live_edge(next) ==> ({
            let v0 = old(mesh).edge_vertex_spec(old(mesh).adjacent_spec(prev));
            let v1 = old(mesh).edge_vertex_spec(next);
            let e1 = final(mesh).edge_at(e0).twin_index;
            &&& final(mesh).live_edge(e0)
            &&& final(mesh).live_edge(e1)
            &&& e1.offset != e0.offset
            &&& !old(mesh).kernel.edge_buffer.active(e0.offset as int)
            &&& !old(mesh).kernel.edge_buffer.active(e1.offset as int)
            &&& old(mesh).live_edge(prev)
            &&& final(mesh).live_edge(prev)
            &&& final(mesh).live_edge(next)
            &&& active_count(final(mesh).kernel.edge_buffer.slots())
                == active_count(old(mesh).kernel.edge_buffer.slots()) + 2
            &&& final(mesh).kernel.edge_buffer.slots().len()
                <= old(mesh).kernel.edge_buffer.slots().len() + 2
            &&& final(mesh).kernel.edge_buffer.slots().len()
                >= old(mesh).kernel.edge_buffer.slots().len()
            &&& final(mesh).edge_at(e0) == (Edge {
                twin_index: e1,
                next_index: next,
                prev_index: prev,
                face_index: invalid(),
                vertex_index: v0,
            })
            &&& final(mesh).edge_at(e1) == (Edge {
                twin_index: e0,
                next_index: invalid(),
                prev_index: invalid(),
                face_index: invalid(),
                vertex_index: v1,
            })
            &&& (prev.offset != next.offset ==> {
                &&& final(mesh).edge_at(prev)
                    == edge_with_next(old(mesh).edge_at(prev), e0)
                &&& final(mesh).edge_at(next)
                    == edge_with_prev(old(mesh).edge_at(next), e0)
            })
            &&& (prev.offset == next.offset ==> final(mesh).edge_at(prev)
                    == edge_with_prev(edge_with_next(old(mesh).edge_at(prev), e0), e0))
            &&& (forall|o: int| 0 <= o < old(mesh).kernel.edge_buffer.slots().len()
                    && o != e0.offset && o != e1.offset
                    && o != prev.offset && o != next.offset
                    ==> final(mesh).kernel.edge_buffer.slots()[o]
                        == old(mesh).kernel.edge_buffer.slots()[o])
            &&& final(mesh).kernel.vertex_buffer.slots() == ({
                let s0 = old(mesh).kernel.vertex_buffer.slots();
                let s1 = if resolves_in(s0, v0) {
                    set_value_in(s0, v0.offset as int,
                        vertex_with_edge(s0[v0.offset as int].value, e0))
                } else {
                    s0
                };
                if resolves_in(s1, v1) {
                    set_value_in(s1, v1.offset as int,
                        vertex_with_edge(s1[v1.offset as int].value, e1))
                } else {
                    s1
                }
            })
            &&& final(mesh).kernel.vertex_buffer.free()
                == old(mesh).kernel.vertex_buffer.free()
        }),
{
    let pa = mesh.adjacent(prev);
    if !mesh.kernel.edge_buffer.contains(&pa) || !mesh.kernel.edge_buffer.contains(&next) {
        return Index::new(0);
    }
    let v0 = mesh.edge_vertex(pa);
    let v1 = mesh.edge_vertex(next);
    let e0 = build_full_edge(mesh, v0, v1);
    connect_edges(mesh, prev, e0);
    connect_edges(mesh, e0, next);
    e0
}

/// How many live edges do not yet carry `f` as their face, among the slots
/// strictly below `n`.
pub open spec fn count_unassigned(s: Seq<Slot<Edge>>, f: crate::handles::FaceIndex, n: int)
    -> nat
    decreases n,
{
    if n <= 1 {
        0
    } else {
        count_unassigned(s, f, n - 1)
            + if s[n - 1].props.status == crate::buffer::ElementStatus::ACTIVE
                && !Index::eq_spec(s[n - 1].value.face_index, f) {
                1nat
            } else {
                0nat
            }
    }
}

proof fn lemma_count_unassigned_update(
    s: Seq<Slot<Edge>>,
    f: crate::handles::FaceIndex,
    o: int,
    x: Slot<Edge>,
    n: int,
)
    requires
        1 <= o < s.len(),
        n <= s.len(),
    ensures
        o < n ==> count_unassigned(s.update(o, x), f, n)
            + (if s[o].props.status == crate::buffer::ElementStatus::ACTIVE
                && !Index::eq_spec(s[o].value.face_index, f) { 1nat } else { 0nat })
            == count_unassigned(s, f, n)
            + (if x.props.status == crate::buffer::ElementStatus::ACTIVE
                && !Index::eq_spec(x.value.face_index, f) { 1nat } else { 0nat }),
        n <= o ==> count_unassigned(s.update(o, x), f, n) == count_unassigned(s, f, n),
    decreases n,
{
    if n > 1 {
        lemma_count_unassigned_update(s, f, o, x, n - 1);
    }
}

/// The condition under which `assign_face_to_loop` owes a complete claim:
/// the face resolves, the edges form a closed `next` cycle whose first edge
/// is the given root, and none of them already carries the face.
pub open spec fn claimable_loop(
    m: Mesh,
    root: EdgeIndex,
    f: crate::handles::FaceIndex,
    s: Seq<EdgeIndex>,
) -> bool {
    &&& crate::mesh::next_cycle(m, s)
    &&& s[0] == root
    &&& m.live_face(f)
    &&& (forall|i: int| 0 <= i < s.len()
            ==> !Index::eq_spec((#[trigger] m.edge_at(s[i])).face_index, f))
}

/// Walks the `next` chain from `root_edge_index`, claiming each edge for
/// `face_index` and pointing the face's root at the given edge. The walk
/// stops at an edge that already carries the face (a closed or revisited
/// loop), at the edge whose `next` is the root again, or at the first handle
/// that does not resolve; a malformed chain therefore ends the pass early
/// instead of hanging. Nothing happens when the face does not resolve.
/// Where the root heads a closed, unclaimed loop, every edge of that loop is
/// claimed.
#[verifier::rlimit(50)]
#[verifier::spinoff_prover]
pub fn assign_face_to_loop(
    mesh: &mut Mesh,
    root_edge_index: EdgeIndex,
    face_index: crate::handles::FaceIndex,
)
    requires
        old(mesh).wf(),
    ensures
        final(mesh).wf(),
        final(mesh).tag == old(mesh).tag,
        final(mesh).kernel.vertex_buffer == old(mesh).kernel.vertex_buffer,
        final(mesh).kernel.point_buffer == old(mesh).kernel.point_buffer,
        final(mesh).kernel.face_buffer.free() == old(mesh).kernel.face_buffer.free(),
        final(mesh).kernel.face_buffer.slots() == (if old(mesh).live_face(face_index) {
            set_value_in(old(mesh).kernel.face_buffer.slots(), face_index.offset as int,
                (crate::elements::Face { edge_index: root_edge_index }))
        } else {
            old(mesh).kernel.face_buffer.slots()
        }),
        final(mesh).kernel.edge_buffer.free() == old(mesh).kernel.edge_buffer.free(),
        final(mesh).kernel.edge_buffer.slots().len()
            == old(mesh).kernel.edge_buffer.slots().len(),
        forall|o: int| 0 <= o < old(mesh).kernel.edge_buffer.slots().len()
            ==> (#[trigger] final(mesh).kernel.edge_buffer.slots()[o]).props
                    == old(mesh).kernel.edge_buffer.slots()[o].props
                && (final(mesh).kernel.edge_buffer.slots()[o].value
                        == old(mesh).kernel.edge_buffer.slots()[o].value
                    || final(mesh).kernel.edge_buffer.slots()[o].value
                        == edge_with_face(old(mesh).kernel.edge_buffer.slots()[o].value,
                            face_index)),
        !old(mesh).live_face(face_index) ==> *final(mesh) == *old(mesh),
        forall|s: Seq<EdgeIndex>|
            #[trigger] claimable_loop(*old(mesh), root_edge_index, face_index, s)
            ==> (forall|i: int| 0 <= i < s.len()
                ==> (#[trigger] final(mesh).edge_at(s[i])).face_index == face_index
                    && final(mesh).live_edge(s[i])),
{
    if !mesh.kernel.face_buffer.contains(&face_index) {
        proof {
            assert forall|s: Seq<EdgeIndex>|
                claimable_loop(*old(mesh), root_edge_index, face_index, s)
                implies false by {}
        }
        return;
    }
    set_face_root(mesh, face_index, root_edge_index);
    let ghost entry = *mesh;
    let ghost mut visited: Seq<EdgeIndex> = Seq::empty();
    let mut edge = root_edge_index;
    let mut done = false;
    while !done
        invariant
            mesh.wf(),
            mesh.tag == entry.tag,
            mesh.kernel.vertex_buffer == entry.kernel.vertex_buffer,
            mesh.kernel.point_buffer == entry.kernel.point_buffer,
            mesh.kernel.face_buffer == entry.kernel.face_buffer,
            mesh.kernel.edge_buffer.free() == entry.kernel.edge_buffer.free(),
            mesh.kernel.edge_buffer.slots().len()
                == entry.kernel.edge_buffer.slots().len(),
            entry.kernel.edge_buffer.slots() == old(mesh).kernel.edge_buffer.slots(),
            forall|o: int| 0 <= o < entry.kernel.edge_buffer.slots().len()
                ==> (#[trigger] mesh.kernel.edge_buffer.slots()[o]).props
                        == entry.kernel.edge_buffer.slots()[o].props
                    && (mesh.kernel.edge_buffer.slots()[o].value
                            == entry.kernel.edge_buffer.slots()[o].value
                        || mesh.kernel.edge_buffer.slots()[o].value
                            == edge_with_face(entry.kernel.edge_buffer.slots()[o].value,
                                face_index)),
            forall|s: Seq<EdgeIndex>|
                #[trigger] claimable_loop(*old(mesh), root_edge_index, face_index, s)
                ==> ({
                    let n = s.len() as int;
                    &&& visited.len() <= n
                    &&& visited == s.subrange(0, visited.len() as int)
                    &&& (forall|i: int| 0 <= i < visited.len()
                            ==> (#[trigger] mesh.edge_at(s[i])).face_index == face_index)
                    &&& (forall|i: int| visited.len() <= i < n
                            ==> (#[trigger] mesh.edge_at(s[i])) == old(mesh).edge_at(s[i]))
                    &&& (!done ==> visited.len() < n && edge == s[visited.len() as int])
                    &&& (done ==> visited.len() == n)
                }),
        decreases
            count_unassigned(mesh.kernel.edge_buffer.slots(), face_index,
                mesh.kernel.edge_buffer.slots().len() as int),
            (if done { 0int } else { 1int }),
    {
        let ghost pre = *mesh;
        let ghost pre_visited = visited;
        let current = match mesh.kernel.edge_buffer.get(&edge) {
            Some(e) => *e,
            None => {
                done = true;
                proof {
                    assert forall|s: Seq<EdgeIndex>|
                        claimable_loop(*old(mesh), root_edge_index, face_index, s)
                        implies false by {
                        let k = visited.len() as int;
                        assert(edge == s[k]);
                        assert(old(mesh).live_edge(s[k]));
                        assert(mesh.kernel.edge_buffer.slots()[s[k].offset as int].props
                            == old(mesh).kernel.edge_buffer.slots()[s[k].offset as int].props);
                        assert(mesh.live_edge(s[k]));
                    }
                }
                continue;
            },
        };
        if current.face_index == face_index {
            done = true;
            proof {
                assert forall|s: Seq<EdgeIndex>|
                    claimable_loop(*old(mesh), root_edge_index, face_index, s)
                    implies false by {
                    let k = visited.len() as int;
                    assert(edge == s[k]);
                    assert(mesh.edge_at(s[k]) == old(mesh).edge_at(s[k]));
                    assert(!Index::eq_spec(old(mesh).edge_at(s[k]).face_index, face_index));
                }
            }
            continue;
        }
        let ghost before = mesh.kernel.edge_buffer.slots();
        set_edge_face(mesh, edge, face_index);
        proof {
            lemma_count_unassigned_update(before, face_index, edge.offset as int,
                mesh.kernel.edge_buffer.slots()[edge.offset as int], before.len() as int);
            assert(count_unassigned(mesh.kernel.edge_buffer.slots(), face_index,
                mesh.kernel.edge_buffer.slots().len() as int)
                < count_unassigned(before, face_index, before.len() as int));
            visited = visited.push(edge);
        }
        let advance = current.next_index.offset != root_edge_index.offset;
        if advance {
            edge = current.next_index;
        } else {
            done = true;
        }
        proof {
            assert forall|s: Seq<EdgeIndex>|
                #[trigger] claimable_loop(*old(mesh), root_edge_index, face_index, s)
                implies ({
                    let n = s.len() as int;
                    &&& visited.len() <= n
                    &&& visited == s.subrange(0, visited.len() as int)
                    &&& (forall|i: int| 0 <= i < visited.len()
                            ==> (#[trigger] mesh.edge_at(s[i])).face_index == face_index)
                    &&& (forall|i: int| visited.len() <= i < n
                            ==> (#[trigger] mesh.edge_at(s[i])) == old(mesh).edge_at(s[i]))
                    &&& (!done ==> visited.len() < n && edge == s[visited.len() as int])
                    &&& (done ==> visited.len() == n)
                }) by {
                let n = s.len() as int;
                let k = pre_visited.len() as int;
                assert(pre_visited == s.subrange(0, k));
                assert(k < n);
                assert(edge == s[k] || (advance && edge == current.next_index));
                let claimed: EdgeIndex = s[k];
                assert(pre.edge_at(claimed) == old(mesh).edge_at(claimed));
                assert(current == pre.edge_at(claimed));
                assert(old(mesh).live_edge(claimed));
                assert(pre.kernel.edge_buffer.slots()[claimed.offset as int].props
                    == old(mesh).kernel.edge_buffer.slots()[claimed.offset as int].props);
                assert(pre.live_edge(claimed));
                assert(mesh.kernel.edge_buffer.slots()
                    == set_value_in(pre.kernel.edge_buffer.slots(), claimed.offset as int,
                        edge_with_face(pre.edge_at(claimed), face_index)));
                assert(visited =~= s.subrange(0, k + 1));
                assert forall|i: int| 0 <= i < k + 1
                    implies (#[trigger] mesh.edge_at(s[i])).face_index == face_index by {
                    if i < k {
                        assert(old(mesh).live_edge(s[i]));
                        assert(s[i].offset != claimed.offset);
                        assert(mesh.kernel.edge_buffer.slots()[s[i].offset as int]
                            == pre.kernel.edge_buffer.slots()[s[i].offset as int]);
                        assert(pre.edge_at(s[i]).face_index == face_index);
                    } else {
                        assert(mesh.edge_at(claimed)
                            == edge_with_face(pre.edge_at(claimed), face_index));
                    }
                }
                assert forall|i: int| k + 1 <= i < n
                    implies (#[trigger] mesh.edge_at(s[i])) == old(mesh).edge_at(s[i]) by {
                    assert(old(mesh).live_edge(s[i]));
                    assert(s[i].offset != claimed.offset);
                    assert(mesh.kernel.edge_buffer.slots()[s[i].offset as int]
                        == pre.kernel.edge_buffer.slots()[s[i].offset as int]);
                    assert(pre.edge_at(s[i]) == old(mesh).edge_at(s[i]));
                }
                assert(current.next_index == old(mesh).edge_at(claimed).next_index);
                assert(current.next_index == s[if k + 1 == n { 0int } else { k + 1 }]);
                if k + 1 == n {
                    assert(current.next_index == s[0]);
                    assert(s[0] == root_edge_index);
                    assert(!advance);
                    assert(done);
                } else {
                    assert(current.next_index == s[k + 1]);
                    assert(s[k + 1].offset != s[0].offset);
                    assert(advance);
                    assert(edge == s[k + 1]);
                }
            }
        }
    }
    proof {
        assert forall|s: Seq<EdgeIndex>|
            #[trigger] claimable_loop(*old(mesh), root_edge_index, face_index, s)
            implies (forall|i: int| 0 <= i < s.len()
                ==> (#[trigger] mesh.edge_at(s[i])).face_index == face_index
                    && mesh.live_edge(s[i])) by {
            assert(visited.len() == s.len());
            assert forall|i: int| 0 <= i < s.len()
                implies (#[trigger] mesh.edge_at(s[i])).face_index == face_index
                    && mesh.live_edge(s[i]) by {
                assert(old(mesh).live_edge(s[i]));
                assert(mesh.kernel.edge_buffer.slots()[s[i].offset as int].props
                    == old(mesh).kernel.edge_buffer.slots()[s[i].offset as int].props);
            }
        }
    }
}

} // verus!
