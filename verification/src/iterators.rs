//! Iterators for simple or common mesh traversal patterns. Each traversal
//! pass takes a fresh tag from the mesh and stamps every edge it hands out;
//! an edge already carrying the pass's tag ends the walk, so even a
//! malformed mesh ends a traversal early instead of hanging.

use vstd::prelude::*;
use crate::buffer::{ElementStatus, Slot};
use crate::elements::Edge;
use crate::handles::{EdgeIndex, FaceIndex, Tag, VertexIndex};
use crate::mesh::Mesh;

verus! {

/// How many live edges below `n` do not carry the tag `t` yet.
pub open spec fn untagged_count(s: Seq<Slot<Edge>>, t: Tag, n: int) -> nat
    decreases n,
{
    if n <= 1 {
        0
    } else {
        untagged_count(s, t, n - 1)
            + if s[n - 1].props.status == ElementStatus::ACTIVE && s[n - 1].props.tag != t {
                1nat
            } else {
                0nat
            }
    }
}

proof fn lemma_untagged_count_update(s: Seq<Slot<Edge>>, t: Tag, o: int, x: Slot<Edge>, n: int)
    requires
        1 <= o < s.len(),
        n <= s.len(),
    ensures
        o < n ==> untagged_count(s.update(o, x), t, n)
            + (if s[o].props.status == ElementStatus::ACTIVE && s[o].props.tag != t { 1nat } else { 0nat })
            == untagged_count(s, t, n)
            + (if x.props.status == ElementStatus::ACTIVE && x.props.tag != t { 1nat } else { 0nat }),
        n <= o ==> untagged_count(s.update(o, x), t, n) == untagged_count(s, t, n),
    decreases n,
{
    if n > 1 {
        lemma_untagged_count_update(s, t, o, x, n - 1);
    }
}

/// The tag the slot under edge handle `e` carries in mesh `m`.
pub open spec fn edge_tag(m: Mesh, e: EdgeIndex) -> Tag {
    m.kernel.edge_buffer.slots()[e.offset as int].props.tag
}

/// Only edge tags changed between the two meshes, and every changed tag
/// became `t`.
pub open spec fn tags_only_changed(pre: Mesh, post: Mesh, t: Tag) -> bool {
    &&& post.kernel.face_buffer == pre.kernel.face_buffer
    &&& post.kernel.vertex_buffer == pre.kernel.vertex_buffer
    &&& post.kernel.point_buffer == pre.kernel.point_buffer
    &&& post.kernel.edge_buffer.free() == pre.kernel.edge_buffer.free()
    &&& post.kernel.edge_buffer.slots().len() == pre.kernel.edge_buffer.slots().len()
    &&& (forall|o: int| 0 <= o < pre.kernel.edge_buffer.slots().len()
            ==> (#[trigger] post.kernel.edge_buffer.slots()[o]).value
                    == pre.kernel.edge_buffer.slots()[o].value
                && post.kernel.edge_buffer.slots()[o].props.status
                    == pre.kernel.edge_buffer.slots()[o].props.status
                && post.kernel.edge_buffer.slots()[o].props.generation
                    == pre.kernel.edge_buffer.slots()[o].props.generation
                && (post.kernel.edge_buffer.slots()[o].props.tag
                        == pre.kernel.edge_buffer.slots()[o].props.tag
                    || post.kernel.edge_buffer.slots()[o].props.tag == t))
}

/// Stamping tags changes no navigation: where only edge tags moved between
/// two mesh states, every handle resolves the same way and every `next`,
/// `prev` and twin step lands on the same edge.
pub proof fn lemma_navigation_preserved(pre: Mesh, post: Mesh, t: Tag)
    requires
        tags_only_changed(pre, post, t),
    ensures
        forall|e: EdgeIndex| #[trigger] post.live_edge(e) == pre.live_edge(e),
        forall|e: EdgeIndex| pre.live_edge(e)
            ==> (#[trigger] post.edge_at(e)) == pre.edge_at(e),
        forall|e: EdgeIndex| #[trigger] post.prev_spec(e) == pre.prev_spec(e),
        forall|e: EdgeIndex| #[trigger] post.adjacent_spec(e) == pre.adjacent_spec(e),
        forall|e: EdgeIndex| #[trigger] post.next_spec(e) == pre.next_spec(e),
{
    assert forall|e: EdgeIndex| #[trigger] post.live_edge(e) == pre.live_edge(e) by {
        if 0 < e.offset && (e.offset as int) < pre.kernel.edge_buffer.slots().len() {
            assert(post.kernel.edge_buffer.slots()[e.offset as int].props.status
                == pre.kernel.edge_buffer.slots()[e.offset as int].props.status);
            assert(post.kernel.edge_buffer.slots()[e.offset as int].props.generation
                == pre.kernel.edge_buffer.slots()[e.offset as int].props.generation);
        }
    }
    assert forall|e: EdgeIndex| pre.live_edge(e)
        implies (#[trigger] post.edge_at(e)) == pre.edge_at(e) by {
        assert(post.kernel.edge_buffer.slots()[e.offset as int].value
            == pre.kernel.edge_buffer.slots()[e.offset as int].value);
    }
    assert forall|e: EdgeIndex| #[trigger] post.prev_spec(e) == pre.prev_spec(e) by {
        assert(post.live_edge(e) == pre.live_edge(e));
    }
    assert forall|e: EdgeIndex| #[trigger] post.adjacent_spec(e) == pre.adjacent_spec(e) by {
        assert(post.live_edge(e) == pre.live_edge(e));
    }
    assert forall|e: EdgeIndex| #[trigger] post.next_spec(e) == pre.next_spec(e) by {
        assert(post.live_edge(e) == pre.live_edge(e));
    }
}

/// The edges `s` are the closed one-ring leaving vertex `v`: the vertex's
/// own outgoing edge first, every ring edge live and in a slot of its own,
/// one turn of `prev`-then-twin moving forward around the vertex, and one
/// turn of twin-then-`next` moving backward.
pub open spec fn vertex_one_ring(m: Mesh, v: VertexIndex, s: Seq<EdgeIndex>) -> bool {
    &&& s.len() >= 1
    &&& s[0] == m.vertex_edge_spec(v)
    &&& (forall|i: int| 0 <= i < s.len() ==> #[trigger] m.live_edge(s[i]))
    &&& (forall|i: int| 0 <= i < s.len()
            ==> #[trigger] m.adjacent_spec(m.prev_spec(s[i]))
                == s[if i + 1 == s.len() { 0int } else { i + 1 }])
    &&& (forall|i: int| 0 <= i < s.len()
            ==> #[trigger] m.next_spec(m.adjacent_spec(s[i]))
                == s[if i == 0 { s.len() - 1 } else { i - 1 }])
    &&& (forall|i: int, j: int| 0 <= i < j < s.len() ==> s[i].offset != s[j].offset)
}

/// Walks the edge loop of one face: the root edge first, then `next` steps,
/// stamping each returned edge with the pass's tag; the walk ends at an
/// edge already stamped this pass (the loop closed, or was revisited) or at
/// a handle that does not resolve.
#[derive(Debug)]
pub struct FaceEdges {
    pub tag: Tag,
    pub root_edge: EdgeIndex,
    pub last_edge: Option<EdgeIndex>,
    pub done: bool,
}

impl FaceEdges {
    pub fn new(tag: Tag, root_edge: EdgeIndex) -> (r: FaceEdges)
        ensures
            r.tag == tag,
            r.root_edge == root_edge,
            r.last_edge is None,
            !r.done,
    {
        FaceEdges { tag, root_edge, last_edge: None, done: false }
    }

    /// One step of the walk. The first call hands out the root edge (or
    /// ends the pass when it does not resolve); later calls step along
    /// `next`. Every returned edge is stamped; a stamped or unresolvable
    /// step ends the pass for good.
    pub fn next(&mut self, mesh: &mut Mesh) -> (r: Option<EdgeIndex>)
        requires
            old(mesh).wf(),
        ensures
            final(mesh).wf(),
            tags_only_changed(*old(mesh), *final(mesh), old(self).tag),
            final(mesh).tag == old(mesh).tag,
            final(self).tag == old(self).tag,
            final(self).root_edge == old(self).root_edge,
            old(self).done ==> r is None && *final(mesh) == *old(mesh)
                && *final(self) == *old(self),
            r is None ==> final(self).done,
            r matches Some(h) ==> {
                &&& old(mesh).live_edge(h)
                &&& final(mesh).live_edge(h)
                &&& final(self).last_edge == Some(h)
                &&& !final(self).done
                &&& final(mesh).kernel.edge_buffer.slots()
                    == old(mesh).kernel.edge_buffer.slots().update(h.offset as int, (Slot {
                        props: crate::buffer::ElementProperties {
                            generation: old(mesh).kernel.edge_buffer.slots()[h.offset as int]
                                .props.generation,
                            status: old(mesh).kernel.edge_buffer.slots()[h.offset as int]
                                .props.status,
                            tag: old(self).tag,
                        },
                        value: old(mesh).kernel.edge_buffer.slots()[h.offset as int].value,
                    }))
                &&& edge_tag(*old(mesh), h) != old(self).tag
                &&& (old(self).last_edge is None ==> h == old(self).root_edge)
                &&& (old(self).last_edge matches Some(e)
                        ==> h == old(mesh).next_spec(e))
            },
            r is None && !old(self).done ==> *final(mesh) == *old(mesh) && ({
                let candidate = if old(self).last_edge is None {
                    old(self).root_edge
                } else {
                    old(mesh).next_spec(old(self).last_edge.unwrap())
                };
                !old(mesh).live_edge(candidate)
                    || edge_tag(*old(mesh), candidate) == old(self).tag
            }),
            untagged_count(final(mesh).kernel.edge_buffer.slots(), final(self).tag,
                final(mesh).kernel.edge_buffer.slots().len() as int)
                <= untagged_count(old(mesh).kernel.edge_buffer.slots(), old(self).tag,
                    old(mesh).kernel.edge_buffer.slots().len() as int),
            r is Some ==> untagged_count(final(mesh).kernel.edge_buffer.slots(),
                final(self).tag, final(mesh).kernel.edge_buffer.slots().len() as int)
                < untagged_count(old(mesh).kernel.edge_buffer.slots(), old(self).tag,
                    old(mesh).kernel.edge_buffer.slots().len() as int),
    {
        if self.done {
            return None;
        }
        let candidate = match self.last_edge {
            None => self.root_edge,
            Some(last) => mesh.next(last),
        };
        if !mesh.kernel.edge_buffer.contains(&candidate) {
            self.done = true;
            self.last_edge = None;
            return None;
        }
        let slot_tag = mesh.kernel.edge_buffer.buffer[candidate.offset as usize].props.tag;
        if slot_tag == self.tag {
            self.done = true;
            self.last_edge = None;
            return None;
        }
        let ghost pre = *mesh;
        let stamped = mesh.kernel.edge_buffer.set_tag(candidate, self.tag);
        proof {
            assert(stamped);
            lemma_untagged_count_update(pre.kernel.edge_buffer.slots(), self.tag,
                candidate.offset as int,
                mesh.kernel.edge_buffer.slots()[candidate.offset as int],
                pre.kernel.edge_buffer.slots().len() as int);
        }
        self.last_edge = Some(candidate);
        Some(candidate)
    }
}

impl Mesh {
    /// All the edges of one pass of `FaceEdges` around face `f`, in walk
    /// order. Where `f` has a closed, freshly untagged loop `s`, the result
    /// is exactly `s`; on a malformed face the walk just ends early.
    #[verifier::rlimit(50)]
    #[verifier::spinoff_prover]
    pub fn face_edges(&mut self, f: FaceIndex) -> (r: Vec<EdgeIndex>)
        requires
            old(self).wf(),
        ensures
            final(self).wf(),
            tags_only_changed(*old(self), *final(self), old(self).tag),
            final(self).tag == (if old(self).tag == u32::MAX { 1u32 } else { (old(self).tag + 1) as u32 }),
            forall|s: Seq<EdgeIndex>| #[trigger] old(self).face_loop(f, s)
                && (forall|i: int| 0 <= i < s.len()
                    ==> edge_tag(*old(self), #[trigger] s[i]) != old(self).tag)
                ==> r@ == s,
    {
        let ghost m0 = *self;
        let tag = self.next_tag();
        let root = self.root_edge(f);
        let mut iter = FaceEdges::new(tag, root);
        let mut result: Vec<EdgeIndex> = Vec::new();
        loop
            invariant
                self.wf(),
                iter.tag == tag,
                tag == m0.tag,
                iter.root_edge == root,
                root == m0.root_edge_spec(f),
                tags_only_changed(m0, *self, tag),
                self.tag == (if m0.tag == u32::MAX { 1u32 } else { (m0.tag + 1) as u32 }),
                !iter.done ==> (iter.last_edge matches Some(e)
                    ==> result@.len() >= 1 && result@[result@.len() - 1] == e),
                !iter.done ==> (iter.last_edge is None ==> result@.len() == 0),
                forall|s: Seq<EdgeIndex>| #[trigger] m0.face_loop(f, s)
                    && (forall|i: int| 0 <= i < s.len()
                        ==> edge_tag(m0, #[trigger] s[i]) != tag)
                    ==> {
                    &&& result@.len() <= s.len()
                    &&& result@ == s.subrange(0, result@.len() as int)
                    &&& (forall|i: int| 0 <= i < s.len()
                        ==> edge_tag(*self, #[trigger] s[i])
                            == (if i < result@.len() { tag } else { edge_tag(m0, s[i]) }))
                    &&& (iter.done ==> result@.len() == s.len())
                },
            ensures
                self.wf(),
                tags_only_changed(m0, *self, tag),
                self.tag == (if m0.tag == u32::MAX { 1u32 } else { (m0.tag + 1) as u32 }),
                forall|s: Seq<EdgeIndex>| #[trigger] m0.face_loop(f, s)
                    && (forall|i: int| 0 <= i < s.len()
                        ==> edge_tag(m0, #[trigger] s[i]) != tag)
                    ==> result@ == s,
            decreases
                untagged_count(self.kernel.edge_buffer.slots(), tag,
                    self.kernel.edge_buffer.slots().len() as int),
                (if iter.done { 0int } else { 1int }),
        {
            let ghost pre = *self;
            let ghost pre_iter = iter;
            match iter.next(self) {
                Some(h) => {
                    result.push(h);
                    proof {
                        assert forall|s: Seq<EdgeIndex>| #[trigger] m0.face_loop(f, s)
                            && (forall|i: int| 0 <= i < s.len()
                                ==> edge_tag(m0, #[trigger] s[i]) != tag)
                            implies {
                            &&& result@.len() <= s.len()
                            &&& result@ == s.subrange(0, result@.len() as int)
                            &&& (forall|i: int| 0 <= i < s.len()
                                ==> edge_tag(*self, #[trigger] s[i])
                                    == (if i < result@.len() { tag } else { edge_tag(m0, s[i]) }))
                        } by {
                            let k = result@.len() - 1;
                            if pre_iter.last_edge is None {
                                assert(h == root);
                                assert(s[0] == m0.root_edge_spec(f));
                                assert(result@ =~= s.subrange(0, 1));
                            } else {
                                let e = pre_iter.last_edge.unwrap();
                                assert(e == s[k - 1]);
                                assert(h == pre.next_spec(e));
                                assert(pre.live_edge(s[k - 1]));
                                assert(pre.edge_at(s[k - 1]) == m0.edge_at(s[k - 1]));
                                assert(m0.edge_at(s[k - 1]).next_index
                                    == s[if k == s.len() { 0int } else { k }]);
                                if k == s.len() {
                                    // the walk would have closed: the root is
                                    // already stamped, so this step cannot
                                    // have produced an edge
                                    assert(h == s[0]);
                                    assert(edge_tag(pre, s[0]) == tag);
                                    assert(edge_tag(pre, h) != tag);
                                    assert(false);
                                }
                                assert(h == s[k]);
                                assert(result@ =~= s.subrange(0, k + 1));
                            }
                            assert forall|i: int| 0 <= i < s.len()
                                implies edge_tag(*self, #[trigger] s[i])
                                    == (if i < result@.len() { tag } else { edge_tag(m0, s[i]) }) by {
                                if i < result@.len() - 1 || i >= result@.len() {
                                    assert(s[i].offset != h.offset);
                                    assert(edge_tag(*self, s[i]) == edge_tag(pre, s[i]));
                                } else {
                                    assert(s[i] == h);
                                }
                            }
                        }
                    }
                },
                None => {
                    proof {
                        assert forall|s: Seq<EdgeIndex>| #[trigger] m0.face_loop(f, s)
                            && (forall|i: int| 0 <= i < s.len()
                                ==> edge_tag(m0, #[trigger] s[i]) != tag)
                            implies result@ == s by {
                            let k = result@.len() as int;
                            if !pre_iter.done {
                                if pre_iter.last_edge is None {
                                    // the first step only fails on a dead
                                    // root, but the loop's root is live and
                                    // untagged
                                    assert(k == 0);
                                    assert(pre.live_edge(s[0]));
                                    assert(edge_tag(pre, s[0]) != tag);
                                    assert(pre.live_edge(root));
                                    assert(false);
                                } else {
                                    let e = pre_iter.last_edge.unwrap();
                                    assert(e == s[k - 1]);
                                    let h = pre.next_spec(e);
                                    assert(pre.edge_at(s[k - 1]) == m0.edge_at(s[k - 1]));
                                    if k < s.len() {
                                        // mid-loop the next edge is live and
                                        // untagged, so the pass cannot end
                                        assert(h == s[k]);
                                        assert(pre.live_edge(s[k]));
                                        assert(edge_tag(pre, s[k]) == edge_tag(m0, s[k]));
                                        assert(false);
                                    }
                                    assert(result@ =~= s);
                                }
                            }
                        }
                    }
                    break;
                },
            }
        }
        result
    }

    /// The vertices around face `f`, one per loop edge, in walk order: a
    /// thin projection of `face_edges`.
    pub fn face_vertices(&mut self, f: FaceIndex) -> (r: Vec<VertexIndex>)
        requires
            old(self).wf(),
        ensures
            final(self).wf(),
            tags_only_changed(*old(self), *final(self), old(self).tag),
            forall|s: Seq<EdgeIndex>| #[trigger] old(self).face_loop(f, s)
                && (forall|i: int| 0 <= i < s.len()
                    ==> edge_tag(*old(self), #[trigger] s[i]) != old(self).tag)
                ==> r@ == s.map_values(|e: EdgeIndex| old(self).edge_at(e).vertex_index),
    {
        let ghost m0 = *self;
        let edges = self.face_edges(f);
        let result = self.vertices_of_edges(&edges);
        proof {
            assert forall|s: Seq<EdgeIndex>| #[trigger] m0.face_loop(f, s)
                && (forall|i2: int| 0 <= i2 < s.len()
                    ==> edge_tag(m0, #[trigger] s[i2]) != m0.tag)
                implies result@ == s.map_values(|e: EdgeIndex| m0.edge_at(e).vertex_index) by {
                assert(edges@ == s);
                lemma_navigation_preserved(m0, *self, m0.tag);
                assert forall|j: int| 0 <= j < s.len()
                    implies #[trigger] result@[j] == m0.edge_at(s[j]).vertex_index by {
                    assert(m0.live_edge(s[j]));
                    assert(self.live_edge(s[j]));
                    assert(result@[j] == self.edge_vertex_spec(s[j]));
                    assert(self.edge_at(s[j]).vertex_index == m0.edge_at(s[j]).vertex_index);
                }
                assert(result@ =~= s.map_values(|e: EdgeIndex| m0.edge_at(e).vertex_index));
            }
        }
        result
    }

    /// The pure projection under `face_vertices`: the vertex each given edge
    /// leaves from, edge by edge, adding and dropping nothing. An edge that
    /// does not resolve projects to the invalid vertex handle.
    pub fn vertices_of_edges(&self, edges: &Vec<EdgeIndex>) -> (r: Vec<VertexIndex>)
        ensures
            r@ == edges@.map_values(|e: EdgeIndex| self.edge_vertex_spec(e)),
    {
        let mut result: Vec<VertexIndex> = Vec::new();
        let mut i: usize = 0;
        while i < edges.len()
            invariant
                i <= edges@.len(),
                result@.len() == i,
                forall|j: int| 0 <= j < i
                    ==> #[trigger] result@[j] == self.edge_vertex_spec(edges@[j]),
            decreases edges.len() - i,
        {
            result.push(self.edge_vertex(edges[i]));
            i = i + 1;
        }
        proof {
            assert(result@ =~= edges@.map_values(|e: EdgeIndex| self.edge_vertex_spec(e)));
        }
        result
    }

    /// The pure projection under `face_neighbors`: the face on the far side
    /// of each given edge, edge by edge, adding and dropping nothing. An
    /// unresolvable step projects to the invalid face handle.
    pub fn neighbors_of_edges(&self, edges: &Vec<EdgeIndex>) -> (r: Vec<FaceIndex>)
        ensures
            r@ == edges@.map_values(|e: EdgeIndex|
                self.edge_face_spec(self.adjacent_spec(e))),
    {
        let mut result: Vec<FaceIndex> = Vec::new();
        let mut i: usize = 0;
        while i < edges.len()
            invariant
                i <= edges@.len(),
                result@.len() == i,
                forall|j: int| 0 <= j < i ==> #[trigger] result@[j]
                    == self.edge_face_spec(self.adjacent_spec(edges@[j])),
            decreases edges.len() - i,
        {
            result.push(self.edge_face(self.adjacent(edges[i])));
            i = i + 1;
        }
        proof {
            assert(result@ =~= edges@.map_values(|e: EdgeIndex|
                self.edge_face_spec(self.adjacent_spec(e))));
        }
        result
    }

    /// The faces across each loop edge of face `f`, in walk order: the
    /// neighboring faces, with the invalid handle standing where the far
    /// side is open.
    pub fn face_neighbors(&mut self, f: FaceIndex) -> (r: Vec<FaceIndex>)
        requires
            old(self).wf(),
        ensures
            final(self).wf(),
            tags_only_changed(*old(self), *final(self), old(self).tag),
            forall|s: Seq<EdgeIndex>| #[trigger] old(self).face_loop(f, s)
                && (forall|i: int| 0 <= i < s.len()
                    ==> edge_tag(*old(self), #[trigger] s[i]) != old(self).tag)
                ==> r@ == s.map_values(|e: EdgeIndex|
                    old(self).edge_face_spec(old(self).adjacent_spec(e))),
    {
        let ghost m0 = *self;
        let edges = self.face_edges(f);
        let result = self.neighbors_of_edges(&edges);
        proof {
            assert forall|s: Seq<EdgeIndex>| #[trigger] m0.face_loop(f, s)
                && (forall|i2: int| 0 <= i2 < s.len()
                    ==> edge_tag(m0, #[trigger] s[i2]) != m0.tag)
                implies result@ == s.map_values(|e: EdgeIndex|
                    m0.edge_face_spec(m0.adjacent_spec(e))) by {
                assert(edges@ == s);
                lemma_navigation_preserved(m0, *self, m0.tag);
                assert forall|j: int| 0 <= j < s.len()
                    implies #[trigger] result@[j]
                        == m0.edge_face_spec(m0.adjacent_spec(s[j])) by {
                    assert(result@[j] == self.edge_face_spec(self.adjacent_spec(s[j])));
                    assert(self.adjacent_spec(s[j]) == m0.adjacent_spec(s[j]));
                    let t = m0.adjacent_spec(s[j]);
                    assert(self.live_edge(t) == m0.live_edge(t));
                    if m0.live_edge(t) {
                        assert(self.edge_at(t) == m0.edge_at(t));
                    }
                }
                assert(result@ =~= s.map_values(|e: EdgeIndex|
                    m0.edge_face_spec(m0.adjacent_spec(e))));
            }
        }
        result
    }

    /// Walks the one-ring of edges leaving vertex `v`. Starting at the
    /// vertex's own outgoing edge, the walk first turns one way (`prev`,
    /// then its twin, which is the next outgoing edge around the vertex);
    /// when that direction dies at a boundary it turns the other way from
    /// the seed (the twin, then its `next`). The pass's tag ends the walk
    /// when the ring closes or an edge repeats, so a vertex whose fan was
    /// left unclosed still ends the walk instead of hanging. Where the
    /// vertex sits on a closed, freshly untagged one-ring `s`, the result
    /// is exactly `s`.
    #[verifier::rlimit(60)]
    #[verifier::spinoff_prover]
    pub fn vertex_edges(&mut self, v: VertexIndex) -> (r: Vec<EdgeIndex>)
        requires
            old(self).wf(),
        ensures
            final(self).wf(),
            tags_only_changed(*old(self), *final(self), old(self).tag),
            forall|j: int| 0 <= j < r@.len() ==> old(self).live_edge(#[trigger] r@[j]),
            forall|j1: int, j2: int| 0 <= j1 < j2 < r@.len()
                ==> r@[j1].offset != r@[j2].offset,
            forall|s: Seq<EdgeIndex>| #[trigger] vertex_one_ring(*old(self), v, s)
                && (forall|i: int| 0 <= i < s.len()
                    ==> edge_tag(*old(self), #[trigger] s[i]) != old(self).tag)
                ==> r@ == s,
    {
        let ghost m0 = *self;
        let tag = self.next_tag();
        let mut result: Vec<EdgeIndex> = Vec::new();
        let seed = self.vertex_edge(v);
        let mut current = seed;
        let mut done = false;
        proof {
            assert(seed == m0.vertex_edge_spec(v));
        }
        while !done
            invariant
                self.wf(),
                tags_only_changed(m0, *self, tag),
                tag == m0.tag,
                seed == m0.vertex_edge_spec(v),
                forall|j: int| 0 <= j < result@.len() ==> m0.live_edge(#[trigger] result@[j]),
                forall|j: int| 0 <= j < result@.len()
                    ==> #[trigger] edge_tag(*self, result@[j]) == tag,
                forall|j1: int, j2: int| 0 <= j1 < j2 < result@.len()
                    ==> result@[j1].offset != result@[j2].offset,
                forall|s: Seq<EdgeIndex>| #[trigger] vertex_one_ring(m0, v, s)
                    && (forall|i: int| 0 <= i < s.len()
                        ==> edge_tag(m0, #[trigger] s[i]) != tag)
                    ==> ({
                        let n = s.len() as int;
                        &&& result@.len() <= n
                        &&& result@ == s.subrange(0, result@.len() as int)
                        &&& (forall|i: int| 0 <= i < n ==> #[trigger] edge_tag(*self, s[i])
                                == (if i < result@.len() { tag } else { edge_tag(m0, s[i]) }))
                        &&& (!done ==> (result@.len() < n
                                ==> current == s[result@.len() as int]))
                        &&& (!done ==> (result@.len() == n ==> current == s[0]))
                        &&& (done ==> result@.len() == n)
                    }),
            decreases
                untagged_count(self.kernel.edge_buffer.slots(), tag,
                    self.kernel.edge_buffer.slots().len() as int),
                (if done { 0int } else { 1int }),
        {
            let ghost pre = *self;
            let ghost pre_result = result@;
            let ghost pre_current = current;
            if !self.kernel.edge_buffer.contains(&current) {
                done = true;
                proof {
                    assert forall|s: Seq<EdgeIndex>| vertex_one_ring(m0, v, s)
                        && (forall|i: int| 0 <= i < s.len()
                            ==> edge_tag(m0, #[trigger] s[i]) != tag)
                        implies false by {
                        lemma_navigation_preserved(m0, pre, tag);
                        let k = pre_result.len() as int;
                        if k < s.len() {
                            assert(m0.live_edge(s[k]));
                            assert(pre.live_edge(s[k]));
                        } else {
                            assert(m0.live_edge(s[0]));
                            assert(pre.live_edge(s[0]));
                        }
                    }
                }
                continue;
            }
            let slot_tag = self.kernel.edge_buffer.buffer[current.offset as usize].props.tag;
            if slot_tag == tag {
                done = true;
                proof {
                    assert forall|s: Seq<EdgeIndex>| #[trigger] vertex_one_ring(m0, v, s)
                        && (forall|i: int| 0 <= i < s.len()
                            ==> edge_tag(m0, #[trigger] s[i]) != tag)
                        implies ({
                            let n = s.len() as int;
                            &&& result@.len() <= n
                            &&& result@ == s.subrange(0, result@.len() as int)
                            &&& (forall|i: int| 0 <= i < n ==> #[trigger] edge_tag(*self, s[i])
                                    == (if i < result@.len() { tag } else { edge_tag(m0, s[i]) }))
                            &&& result@.len() == n
                        }) by {
                        let n = s.len() as int;
                        let k = pre_result.len() as int;
                        if k < n {
                            assert(current == s[k]);
                            assert(edge_tag(pre, s[k]) == edge_tag(m0, s[k]));
                            assert(false);
                        }
                    }
                }
                continue;
            }
            let ghost before = *self;
            let stamped = self.kernel.edge_buffer.set_tag(current, tag);
            proof {
                assert(stamped);
                lemma_untagged_count_update(before.kernel.edge_buffer.slots(), tag,
                    current.offset as int,
                    self.kernel.edge_buffer.slots()[current.offset as int],
                    before.kernel.edge_buffer.slots().len() as int);
                assert(before.live_edge(current));
                assert(m0.live_edge(current)) by {
                    lemma_navigation_preserved(m0, before, tag);
                }
            }
            result.push(current);
            proof {
                assert forall|j: int| 0 <= j < result@.len() implies
                    #[trigger] edge_tag(*self, result@[j]) == tag by {
                    if j < result@.len() - 1 {
                        assert(edge_tag(pre, result@[j]) == tag);
                        assert(pre_current.offset != result@[j].offset);
                        assert(self.kernel.edge_buffer.slots()[result@[j].offset as int]
                            == pre.kernel.edge_buffer.slots()[result@[j].offset as int]);
                    } else {
                        assert(result@[j] == pre_current);
                    }
                }
                assert forall|j1: int, j2: int| 0 <= j1 < j2 < result@.len() implies
                    result@[j1].offset != result@[j2].offset by {
                    if j2 == result@.len() - 1 {
                        assert(edge_tag(pre, result@[j1]) == tag);
                        assert(edge_tag(pre, pre_current) != tag);
                    }
                }
            }
            let next_around = self.adjacent(self.prev(current));
            current = next_around;
            proof {
                assert forall|s: Seq<EdgeIndex>| #[trigger] vertex_one_ring(m0, v, s)
                    && (forall|i: int| 0 <= i < s.len()
                        ==> edge_tag(m0, #[trigger] s[i]) != tag)
                    implies ({
                        let n = s.len() as int;
                        &&& result@.len() <= n
                        &&& result@ == s.subrange(0, result@.len() as int)
                        &&& (forall|i: int| 0 <= i < n ==> #[trigger] edge_tag(*self, s[i])
                                == (if i < result@.len() { tag } else { edge_tag(m0, s[i]) }))
                        &&& (!done ==> (result@.len() < n
                                ==> current == s[result@.len() as int]))
                        &&& (!done ==> (result@.len() == n ==> current == s[0]))
                    }) by {
                    let n = s.len() as int;
                    let k = pre_result.len() as int;
                    lemma_navigation_preserved(m0, pre, tag);
                    lemma_navigation_preserved(m0, *self, tag);
                    if k == n {
                        // a full ring was already collected, so the seed is
                        // tagged and this stamping step cannot have run
                        assert(pre_current == s[0]);
                        assert(edge_tag(pre, s[0]) == tag);
                        assert(false);
                    }
                    assert(pre_current == s[k]);
                    let claimed: EdgeIndex = s[k];
                    assert(m0.live_edge(claimed));
                    assert(result@ =~= s.subrange(0, k + 1));
                    assert forall|i: int| 0 <= i < n implies #[trigger] edge_tag(*self, s[i])
                        == (if i < k + 1 { tag } else { edge_tag(m0, s[i]) }) by {
                        assert(m0.live_edge(s[i]));
                        if i != k {
                            assert(s[i].offset != claimed.offset);
                            assert(self.kernel.edge_buffer.slots()[s[i].offset as int]
                                == pre.kernel.edge_buffer.slots()[s[i].offset as int]);
                            assert(edge_tag(*self, s[i]) == edge_tag(pre, s[i]));
                            assert(edge_tag(pre, s[i])
                                == (if i < k { tag } else { edge_tag(m0, s[i]) }));
                        }
                    }
                    assert(self.prev_spec(claimed) == m0.prev_spec(claimed));
                    assert(self.adjacent_spec(self.prev_spec(claimed))
                        == m0.adjacent_spec(m0.prev_spec(claimed)));
                    assert(current == self.adjacent_spec(self.prev_spec(claimed)));
                    assert(current == s[if k + 1 == n { 0int } else { k + 1 }]);
                }
            }
        }
        // the forward direction died at a boundary: turn the other way
        // around the vertex, starting over from the seed's far side
        let ghost after_forward = *self;
        let ghost forward_result = result@;
        let mut current = self.next(self.adjacent(seed));
        let mut done = false;
        proof {
            assert forall|s: Seq<EdgeIndex>| #[trigger] vertex_one_ring(m0, v, s)
                && (forall|i: int| 0 <= i < s.len()
                    ==> edge_tag(m0, #[trigger] s[i]) != tag)
                implies result@ == s
                    && current == s[s.len() - 1]
                    && edge_tag(*self, s[s.len() - 1]) == tag by {
                let n = s.len() as int;
                assert(result@.len() == n);
                assert(result@ =~= s);
                lemma_navigation_preserved(m0, after_forward, tag);
                assert(seed == s[0]);
                assert(after_forward.next_spec(after_forward.adjacent_spec(s[0]))
                    == m0.next_spec(m0.adjacent_spec(s[0])));
                assert(current == s[n - 1]);
                assert(edge_tag(*self, s[n - 1]) == tag);
            }
        }
        while !done
            invariant
                self.wf(),
                tags_only_changed(m0, *self, tag),
                tag == m0.tag,
                forall|j: int| 0 <= j < result@.len() ==> m0.live_edge(#[trigger] result@[j]),
                forall|j: int| 0 <= j < result@.len()
                    ==> #[trigger] edge_tag(*self, result@[j]) == tag,
                forall|j1: int, j2: int| 0 <= j1 < j2 < result@.len()
                    ==> result@[j1].offset != result@[j2].offset,
                forall|s: Seq<EdgeIndex>| #[trigger] vertex_one_ring(m0, v, s)
                    && (forall|i: int| 0 <= i < s.len()
                        ==> edge_tag(m0, #[trigger] s[i]) != tag)
                    ==> result@ == s
                        && (!done ==> edge_tag(*self, current) == tag
                            && current.offset == s[s.len() - 1].offset),
            decreases
                untagged_count(self.kernel.edge_buffer.slots(), tag,
                    self.kernel.edge_buffer.slots().len() as int),
                (if done { 0int } else { 1int }),
        {
            let ghost pre = *self;
            let ghost pre_current = current;
            if !self.kernel.edge_buffer.contains(&current) {
                done = true;
                continue;
            }
            let slot_tag = self.kernel.edge_buffer.buffer[current.offset as usize].props.tag;
            if slot_tag == tag {
                done = true;
                continue;
            }
            let ghost before = *self;
            let stamped = self.kernel.edge_buffer.set_tag(current, tag);
            proof {
                assert(stamped);
                lemma_untagged_count_update(before.kernel.edge_buffer.slots(), tag,
                    current.offset as int,
                    self.kernel.edge_buffer.slots()[current.offset as int],
                    before.kernel.edge_buffer.slots().len() as int);
                assert(before.live_edge(current));
                assert(m0.live_edge(current)) by {
                    lemma_navigation_preserved(m0, before, tag);
                }
                assert forall|s: Seq<EdgeIndex>| vertex_one_ring(m0, v, s)
                    && (forall|i: int| 0 <= i < s.len()
                        ==> edge_tag(m0, #[trigger] s[i]) != tag)
                    implies false by {
                    assert(edge_tag(pre, current) == tag);
                }
            }
            result.push(current);
            proof {
                assert forall|j: int| 0 <= j < result@.len() implies
                    #[trigger] edge_tag(*self, result@[j]) == tag by {
                    if j < result@.len() - 1 {
                        assert(edge_tag(pre, result@[j]) == tag);
                        assert(pre_current.offset != result@[j].offset);
                        assert(self.kernel.edge_buffer.slots()[result@[j].offset as int]
                            == pre.kernel.edge_buffer.slots()[result@[j].offset as int]);
                    } else {
                        assert(result@[j] == pre_current);
                    }
                }
                assert forall|j1: int, j2: int| 0 <= j1 < j2 < result@.len() implies
                    result@[j1].offset != result@[j2].offset by {
                    if j2 == result@.len() - 1 {
                        assert(edge_tag(pre, result@[j1]) == tag);
                        assert(edge_tag(pre, pre_current) != tag);
                    }
                }
            }
            current = self.next(self.adjacent(current));
        }
        result
    }
}

} // verus!
