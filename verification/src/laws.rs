//! The laws of the storage kernel, stated over the buffer and kernel models
//! that the executable functions' contracts use.

use vstd::prelude::*;
use crate::buffer::{
    active_count_to, bump_generation, CompactableBuffer, ElementStatus, Slot,
};
use crate::handles::{EdgeIndex, Index, IGNORED_GENERATION, INVALID_COMPONENT_OFFSET};
use crate::kernel::{remap_of, spec_rewrite, spec_rewrite_edge, Kernel};
use crate::mesh::Mesh;

verus! {

/// Round trip: the handle `add` returns resolves, and it resolves to
/// exactly the element that was added.
pub proof fn lemma_add_get_round_trip<K, E>(
    pre: CompactableBuffer<K, E>,
    post: CompactableBuffer<K, E>,
    element: E,
    h: Index<K>,
)
    requires
        pre.wf(),
        CompactableBuffer::added(pre, post, element, h),
    ensures
        h.offset != INVALID_COMPONENT_OFFSET,
        post.resolves(h),
        post.value_at(h) == element,
{
}

/// Invalidation: after `remove(h)`, the handle `h` resolves to nothing.
pub proof fn lemma_remove_invalidates<K, E>(
    pre: CompactableBuffer<K, E>,
    post: CompactableBuffer<K, E>,
    h: Index<K>,
)
    requires
        pre.wf(),
        CompactableBuffer::removed(pre, post, h),
    ensures
        !post.resolves(h),
{
}

/// Invalidation, second half: an `add` after a `remove` may reuse the freed
/// offset, but the new handle then carries a different generation, and the
/// removed handle still resolves to nothing against the new element. (A
/// handle built with the "ignore" generation sentinel opts out of the
/// generation check, so the law speaks of stamped handles.)
pub proof fn lemma_reused_slot_gets_new_generation<K, E>(
    pre: CompactableBuffer<K, E>,
    mid: CompactableBuffer<K, E>,
    post: CompactableBuffer<K, E>,
    h: Index<K>,
    element: E,
    h2: Index<K>,
)
    requires
        pre.wf(),
        mid.wf(),
        h.generation != IGNORED_GENERATION,
        pre.resolves(h),
        CompactableBuffer::removed(pre, mid, h),
        CompactableBuffer::added(mid, post, element, h2),
    ensures
        h2.offset == h.offset ==> h2.generation != h.generation,
        !post.resolves(h),
{
    assert(h.generation == pre.slots()[h.offset as int].props.generation);
    assert(mid.slots()[h.offset as int].props.generation == bump_generation(h.generation));
    if h2.offset == h.offset {
        assert(h2.generation == bump_generation(h.generation));
    } else {
        assert(post.slots()[h.offset as int] == mid.slots()[h.offset as int]);
    }
}

/// The slot rank below an active offset stays below the total active count:
/// a compacted offset is always in range.
proof fn lemma_active_rank_in_range<E>(s: Seq<Slot<E>>, o: int, n: int)
    requires
        1 <= o < n <= s.len(),
        s[o].props.status == ElementStatus::ACTIVE,
    ensures
        active_count_to(s, o) < active_count_to(s, n),
    decreases n,
{
    if n == o + 1 {
    } else {
        lemma_active_rank_in_range(s, o, n - 1);
    }
}

/// Compaction preserves semantics: a live edge handle, rewritten through
/// the remap table like every reference inside the kernel, resolves after
/// the pass to the very element it resolved to before — with that element's
/// own references rewritten the same way. A handle that did not resolve
/// keeps resolving to nothing, because generations travel with their slots.
pub proof fn lemma_compact_preserves_edge_resolution(pre: Kernel, post: Kernel, h: EdgeIndex)
    requires
        pre.wf(),
        pre.edge_buffer.resolves(h),
        post.edge_buffer.slots() == pre.compacted_edges(),
        forall|o: int| pre.edge_buffer.active(o)
            ==> (#[trigger] post.edge_buffer.slots()[
                    remap_of(pre.edge_buffer.slots())[o] as int
                ]) == (Slot {
                    props: pre.edge_buffer.slots()[o].props,
                    value: spec_rewrite_edge(
                        pre.edge_buffer.slots()[o].value,
                        remap_of(pre.edge_buffer.slots()),
                        remap_of(pre.face_buffer.slots()),
                        remap_of(pre.vertex_buffer.slots()),
                    ),
                }),
    ensures
        ({
            let h2 = spec_rewrite(h, remap_of(pre.edge_buffer.slots()));
            &&& post.edge_buffer.resolves(h2)
            &&& post.edge_buffer.value_at(h2) == spec_rewrite_edge(
                pre.edge_buffer.value_at(h),
                remap_of(pre.edge_buffer.slots()),
                remap_of(pre.face_buffer.slots()),
                remap_of(pre.vertex_buffer.slots()),
            )
        }),
{
    let s = pre.edge_buffer.slots();
    let o = h.offset as int;
    let remap = remap_of(s);
    let h2 = spec_rewrite(h, remap);
    assert(pre.edge_buffer.active(o));
    assert(remap[o] == (active_count_to(s, o) + 1) as u32);
    lemma_active_rank_in_range(s, o, s.len() as int);
    crate::buffer::lemma_active_count_bound(s, s.len() as int);
    crate::buffer::lemma_active_prefix_len(s, s.len() as int);
    assert(post.edge_buffer.slots().len() == active_count_to(s, s.len() as int) + 1);
    assert((remap[o] as int) < post.edge_buffer.slots().len());
    assert(post.edge_buffer.slots()[remap[o] as int].props == s[o].props);
    assert(h2.offset == remap[o]);
    assert(h2.generation == h.generation);
}

/// Twin symmetry as a mesh-wide predicate: every live edge's twin is live,
/// and the twin's twin points straight back at the edge's own slot with its
/// current generation.
pub open spec fn twin_coherent(m: Mesh) -> bool {
    forall|o: int| m.kernel.edge_buffer.active(o) ==> ({
        let t = (#[trigger] m.kernel.edge_buffer.slots()[o]).value.twin_index;
        &&& m.live_edge(t)
        &&& m.edge_at(t).twin_index.offset == o
        &&& (m.edge_at(t).twin_index.generation == IGNORED_GENERATION
            || m.edge_at(t).twin_index.generation
                == m.kernel.edge_buffer.slots()[o].props.generation)
    })
}

/// Twin symmetry is kept by every step that leaves each edge slot's twin
/// handle, status and generation alone — wiring loops, claiming faces,
/// stamping traversal tags — whatever else the step changes.
pub proof fn lemma_twin_coherence_preserved(pre: Mesh, post: Mesh)
    requires
        twin_coherent(pre),
        post.kernel.edge_buffer.slots().len() == pre.kernel.edge_buffer.slots().len(),
        forall|o: int| 0 <= o < pre.kernel.edge_buffer.slots().len()
            ==> (#[trigger] post.kernel.edge_buffer.slots()[o]).value.twin_index
                    == pre.kernel.edge_buffer.slots()[o].value.twin_index
                && post.kernel.edge_buffer.slots()[o].props.status
                    == pre.kernel.edge_buffer.slots()[o].props.status
                && post.kernel.edge_buffer.slots()[o].props.generation
                    == pre.kernel.edge_buffer.slots()[o].props.generation,
    ensures
        twin_coherent(post),
{
    assert forall|o: int| post.kernel.edge_buffer.active(o) implies ({
        let t = (#[trigger] post.kernel.edge_buffer.slots()[o]).value.twin_index;
        &&& post.live_edge(t)
        &&& post.edge_at(t).twin_index.offset == o
        &&& (post.edge_at(t).twin_index.generation == IGNORED_GENERATION
            || post.edge_at(t).twin_index.generation
                == post.kernel.edge_buffer.slots()[o].props.generation)
    }) by {
        assert(pre.kernel.edge_buffer.active(o));
        let t = pre.kernel.edge_buffer.slots()[o].value.twin_index;
        assert(pre.live_edge(t));
        assert(post.kernel.edge_buffer.slots()[t.offset as int].value.twin_index
            == pre.kernel.edge_buffer.slots()[t.offset as int].value.twin_index);
    }
}

/// A mesh without any live edge — a fresh one among them — is trivially
/// twin coherent.
pub proof fn lemma_twin_coherent_when_empty(m: Mesh)
    requires
        forall|o: int| !m.kernel.edge_buffer.active(o),
    ensures
        twin_coherent(m),
{
}

} // verus!
