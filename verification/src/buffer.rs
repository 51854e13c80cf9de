//! The generational slot buffer that stores one kind of mesh element.
//!
//! Each slot carries a generation, an active/inactive status and a traversal
//! tag beside its element value. Slot 0 is reserved and never active, so the
//! default handle resolves to nothing. Removing an element marks its slot
//! inactive and bumps the generation, which invalidates every handle that
//! was issued for the slot; the offset is then recycled through a free list.
//! Compaction rebuilds the buffer without its inactive slots and reports
//! where each surviving slot went.

use vstd::prelude::*;
use core::marker::PhantomData;
use crate::handles::{Index, Tag, Generation, Offset, IGNORED_GENERATION, INVALID_COMPONENT_OFFSET};

verus! {

/// Whether or not a cell is current or 'removed'.
#[derive(Clone, Copy, Debug, PartialEq, Eq, Structural)]
pub enum ElementStatus {
    ACTIVE,
    INACTIVE,
}

/// The bookkeeping fields a slot needs beside its element value.
#[derive(Clone, Copy, Debug)]
pub struct ElementProperties {
    pub generation: Generation,
    pub status: ElementStatus,
    pub tag: Tag,
}

/// One cell of a buffer: the element value plus its slot bookkeeping.
#[derive(Clone, Copy, Debug)]
pub struct Slot<E> {
    pub props: ElementProperties,
    pub value: E,
}

/// How many of the slots strictly below `n` (and above the reserved slot 0)
/// are active.
pub open spec fn active_count_to<E>(s: Seq<Slot<E>>, n: int) -> nat
    decreases n,
{
    if n <= 1 {
        0
    } else {
        active_count_to(s, n - 1) + if s[n - 1].props.status == ElementStatus::ACTIVE {
            1nat
        } else {
            0nat
        }
    }
}

/// How many slots of the whole buffer are active.
pub open spec fn active_count<E>(s: Seq<Slot<E>>) -> nat {
    active_count_to(s, s.len() as int)
}

/// The active slots below `n`, kept in buffer order.
pub open spec fn active_prefix_seq<E>(s: Seq<Slot<E>>, n: int) -> Seq<Slot<E>>
    decreases n,
{
    if n <= 1 {
        Seq::empty()
    } else {
        let p = active_prefix_seq(s, n - 1);
        if s[n - 1].props.status == ElementStatus::ACTIVE {
            p.push(s[n - 1])
        } else {
            p
        }
    }
}

/// Whether handle `h` reaches a live element of the slot sequence `s`: the
/// offset is usable and in range, the slot is active, and the generations
/// agree unless the handle carries the "ignore" sentinel.
pub open spec fn resolves_in<K, E>(s: Seq<Slot<E>>, h: Index<K>) -> bool {
    h.offset != INVALID_COMPONENT_OFFSET
        && (h.offset as int) < s.len()
        && s[h.offset as int].props.status == ElementStatus::ACTIVE
        && (h.generation == IGNORED_GENERATION
            || h.generation == s[h.offset as int].props.generation)
}

/// The slot sequence `s` with the element value at offset `o` replaced and
/// the slot bookkeeping kept.
pub open spec fn set_value_in<E>(s: Seq<Slot<E>>, o: int, value: E) -> Seq<Slot<E>> {
    s.update(o, Slot { props: s[o].props, value })
}

/// The generation a slot gets when its element is removed: one more, except
/// that it skips the reserved "ignore" value 0 on wrap-around.
pub open spec fn bump_generation(g: Generation) -> Generation {
    if g == u32::MAX {
        1
    } else {
        (g + 1) as u32
    }
}

pub proof fn lemma_active_count_agree<E>(s1: Seq<Slot<E>>, s2: Seq<Slot<E>>, n: int)
    requires
        forall|i: int| 1 <= i < n ==> s1[i] == s2[i],
    ensures
        active_count_to(s1, n) == active_count_to(s2, n),
    decreases n,
{
    if n > 1 {
        lemma_active_count_agree(s1, s2, n - 1);
    }
}

/// A pointwise update below `n` changes the count by the difference of the
/// two slots' activity.
pub proof fn lemma_active_count_update<E>(s: Seq<Slot<E>>, o: int, x: Slot<E>, n: int)
    requires
        1 <= o < s.len(),
        n <= s.len(),
    ensures
        o < n ==> active_count_to(s.update(o, x), n) + (if s[o].props.status == ElementStatus::ACTIVE { 1nat } else { 0nat })
            == active_count_to(s, n) + (if x.props.status == ElementStatus::ACTIVE { 1nat } else { 0nat }),
        n <= o ==> active_count_to(s.update(o, x), n) == active_count_to(s, n),
    decreases n,
{
    if n > 1 {
        lemma_active_count_update(s, o, x, n - 1);
    }
}

pub proof fn lemma_active_count_bound<E>(s: Seq<Slot<E>>, n: int)
    ensures
        active_count_to(s, n) <= (if n <= 1 { 0 } else { n - 1 }),
    decreases n,
{
    if n > 1 {
        lemma_active_count_bound(s, n - 1);
    }
}

/// The active prefix holds exactly as many slots as the count says.
pub proof fn lemma_active_prefix_len<E>(s: Seq<Slot<E>>, n: int)
    ensures
        active_prefix_seq(s, n).len() == active_count_to(s, n),
    decreases n,
{
    if n > 1 {
        lemma_active_prefix_len(s, n - 1);
    }
}

/// Every slot of the active prefix is one of the active slots below `n`.
pub proof fn lemma_active_prefix_from<E>(s: Seq<Slot<E>>, n: int)
    ensures
        forall|j: int| 0 <= j < active_prefix_seq(s, n).len()
            ==> exists|o: int| 1 <= o < n
                && s[o].props.status == ElementStatus::ACTIVE
                && s[o] == #[trigger] active_prefix_seq(s, n)[j],
    decreases n,
{
    if n > 1 {
        lemma_active_prefix_from(s, n - 1);
        let p = active_prefix_seq(s, n - 1);
        let q = active_prefix_seq(s, n);
        if s[n - 1].props.status == ElementStatus::ACTIVE {
            assert forall|j: int| 0 <= j < q.len() implies exists|o: int| 1 <= o < n
                && s[o].props.status == ElementStatus::ACTIVE
                && s[o] == #[trigger] q[j] by {
                if j < p.len() {
                    let o = choose|o: int| 1 <= o < n - 1
                        && s[o].props.status == ElementStatus::ACTIVE
                        && s[o] == #[trigger] p[j];
                    assert(q[j] == p[j]);
                    assert(s[o] == q[j]);
                } else {
                    assert(q[j] == s[n - 1]);
                }
            }
        }
    }
}

/// A growable buffer of slots for one element kind, with a free list of the
/// inactive offsets. The buffer can be compacted: rebuilt without inactive
/// slots, while reporting where each surviving element went.
#[derive(Debug)]
pub struct CompactableBuffer<K, E> {
    pub buffer: Vec<Slot<E>>,
    pub free_cells: Vec<Offset>,
    pub marker: PhantomData<K>,
}

impl<K, E> CompactableBuffer<K, E> {
    pub open spec fn slots(self) -> Seq<Slot<E>> {
        self.buffer@
    }

    pub open spec fn free(self) -> Seq<Offset> {
        self.free_cells@
    }

    /// Whether the slot at offset `o` currently holds an element.
    pub open spec fn active(self, o: int) -> bool {
        1 <= o < self.slots().len() && self.slots()[o].props.status == ElementStatus::ACTIVE
    }

    /// Whether the handle `h` reaches a live element: its offset is usable
    /// and in range, the slot is active, and the generations agree unless
    /// the handle carries the "ignore" sentinel.
    pub open spec fn resolves(self, h: Index<K>) -> bool {
        resolves_in(self.slots(), h)
    }

    /// The element value the handle `h` names.
    pub open spec fn value_at(self, h: Index<K>) -> E {
        self.slots()[h.offset as int].value
    }

    /// The canonical handle of the slot at offset `o`.
    pub open spec fn handle_at(self, o: int) -> Index<K> {
        Index::spec_new(o as u32, self.slots()[o].props.generation)
    }

    /// How a buffer after `add` relates to the buffer before it: `h` names
    /// a slot that now holds `element` with a fresh, non-sentinel generation
    /// and a cleared tag; no other slot changed; a freed slot was reused if
    /// one existed, else a slot was appended.
    pub open spec fn added(pre: Self, post: Self, element: E, h: Index<K>) -> bool {
        &&& post.resolves(h)
        &&& !pre.active(h.offset as int)
        &&& h.generation >= 1
        &&& post.slots()[h.offset as int].props.generation == h.generation
        &&& post.slots()[h.offset as int].props.status == ElementStatus::ACTIVE
        &&& post.slots()[h.offset as int].props.tag == 0
        &&& post.slots()[h.offset as int].value == element
        &&& (forall|o: int| 0 <= o < pre.slots().len() && o != h.offset
                ==> post.slots()[o] == pre.slots()[o])
        &&& active_count(post.slots()) == active_count(pre.slots()) + 1
        &&& (pre.free().len() > 0 ==> {
            &&& h.offset == pre.free().last()
            &&& h.generation == pre.slots()[h.offset as int].props.generation
            &&& post.free() == pre.free().drop_last()
            &&& post.slots().len() == pre.slots().len()
        })
        &&& (pre.free().len() == 0 ==> {
            &&& h.offset == pre.slots().len()
            &&& h.generation == 1
            &&& post.free() == pre.free()
            &&& post.slots().len() == pre.slots().len() + 1
        })
    }

    /// How a buffer after `remove` relates to the buffer before it: where
    /// the handle resolved, its slot is now inactive with a bumped
    /// generation and the offset joined the free list; where it did not,
    /// nothing changed. Either way the handle no longer resolves.
    pub open spec fn removed(pre: Self, post: Self, h: Index<K>) -> bool {
        &&& !post.resolves(h)
        &&& (!pre.resolves(h) ==> post.slots() == pre.slots() && post.free() == pre.free())
        &&& (pre.resolves(h) ==> {
            &&& post.slots() == pre.slots().update(h.offset as int, (Slot {
                props: ElementProperties {
                    generation: bump_generation(pre.slots()[h.offset as int].props.generation),
                    status: ElementStatus::INACTIVE,
                    tag: pre.slots()[h.offset as int].props.tag,
                },
                value: pre.slots()[h.offset as int].value,
            }))
            &&& post.free() == pre.free().push(h.offset)
            &&& active_count(post.slots()) + 1 == active_count(pre.slots())
        })
        &&& post.slots().len() == pre.slots().len()
        &&& (forall|o: int| 0 <= o < pre.slots().len() && o != h.offset
                ==> post.slots()[o] == pre.slots()[o])
    }

    /// Well-formedness: slot 0 is reserved and inactive; the free list holds
    /// exactly the inactive offsets above 0, each once; live slots carry a
    /// non-sentinel generation; and the free list length accounts for every
    /// slot that is not active.
    pub open spec fn wf(self) -> bool {
        &&& 1 <= self.slots().len() <= u32::MAX as int
        &&& self.slots()[0].props.status == ElementStatus::INACTIVE
        &&& (forall|i: int| 0 <= i < self.free().len()
                ==> 1 <= #[trigger] self.free()[i] && (self.free()[i] as int) < self.slots().len()
                    && self.slots()[self.free()[i] as int].props.status == ElementStatus::INACTIVE)
        &&& (forall|i: int, j: int| 0 <= i < j < self.free().len()
                ==> self.free()[i] != self.free()[j])
        &&& (forall|o: int| #![trigger self.slots()[o]] 1 <= o < self.slots().len()
                && self.slots()[o].props.status == ElementStatus::INACTIVE
                ==> self.free().contains(o as u32))
        &&& (forall|o: int| #![trigger self.slots()[o]] 1 <= o < self.slots().len()
                ==> self.slots()[o].props.generation >= 1)
        &&& self.free().len() + active_count(self.slots()) + 1 == self.slots().len()
    }

    /// Returns the number of slots that are allocated and not on the free
    /// list: the active elements plus the reserved slot 0.
    pub fn len(&self) -> (r: usize)
        requires
            self.wf(),
        ensures
            r == self.slots().len() - self.free().len(),
            r == active_count(self.slots()) + 1,
    {
        self.buffer.len() - self.free_cells.len()
    }

    /// True when the buffer holds no active element at all.
    pub fn is_empty(&self) -> (r: bool)
        requires
            self.wf(),
        ensures
            r == (active_count(self.slots()) == 0),
    {
        self.len() == 1
    }

    /// True when some slot is inactive, so that compaction would shrink the
    /// buffer.
    pub fn has_inactive_cells(&self) -> (r: bool)
        requires
            self.wf(),
        ensures
            r == (self.free().len() > 0),
    {
        self.free_cells.len() > 0
    }

    /// Whether the handle reaches a live element.
    pub fn contains(&self, index: &Index<K>) -> (r: bool)
        ensures
            r == self.resolves(*index),
    {
        if index.offset == INVALID_COMPONENT_OFFSET {
            return false;
        }
        if index.offset as usize >= self.buffer.len() {
            return false;
        }
        let props = &self.buffer[index.offset as usize].props;
        if props.status != ElementStatus::ACTIVE {
            return false;
        }
        index.generation == IGNORED_GENERATION || index.generation == props.generation
    }

    /// Returns the element the handle names, or nothing when the handle's
    /// offset is reserved or out of range, the slot is inactive, or the
    /// generations disagree.
    pub fn get(&self, index: &Index<K>) -> (r: Option<&E>)
        ensures
            r is Some <==> self.resolves(*index),
            r matches Some(v) ==> *v == self.value_at(*index),
    {
        if self.contains(index) {
            Some(&self.buffer[index.offset as usize].value)
        } else {
            None
        }
    }

    /// Stores an element: a freed slot is reused with the generation it was
    /// bumped to at removal, else a fresh slot is appended with generation 1.
    /// The returned handle resolves to the element, and no other slot moves.
    pub fn add(&mut self, element: E) -> (h: Index<K>)
        requires
            old(self).wf(),
            old(self).slots().len() < u32::MAX as int,
        ensures
            final(self).wf(),
            final(self).resolves(h),
            h.generation >= 1,
            final(self).slots()[h.offset as int].props.generation == h.generation,
            final(self).slots()[h.offset as int].props.status == ElementStatus::ACTIVE,
            final(self).slots()[h.offset as int].props.tag == 0,
            final(self).slots()[h.offset as int].value == element,
            final(self).value_at(h) == element,
            forall|o: int| 0 <= o < old(self).slots().len() && o != h.offset
                ==> final(self).slots()[o] == old(self).slots()[o],
            active_count(final(self).slots()) == active_count(old(self).slots()) + 1,
            old(self).free().len() > 0 ==> {
                &&& h.offset == old(self).free().last()
                &&& h.generation == old(self).slots()[h.offset as int].props.generation
                &&& final(self).free() == old(self).free().drop_last()
                &&& final(self).slots().len() == old(self).slots().len()
            },
            old(self).free().len() == 0 ==> {
                &&& h.offset == old(self).slots().len()
                &&& h.generation == 1
                &&& final(self).free() == old(self).free()
                &&& final(self).slots().len() == old(self).slots().len() + 1
            },
    {
        let ghost old_slots = self.buffer@;
        if let Some(offset) = self.free_cells.pop() {
            let generation = self.buffer[offset as usize].props.generation;
            let slot = Slot {
                props: ElementProperties { generation, status: ElementStatus::ACTIVE, tag: 0 },
                value: element,
            };
            self.buffer[offset as usize] = slot;
            proof {
                lemma_active_count_update(old_slots, offset as int, slot, old_slots.len() as int);
                assert forall|o: int| #![trigger self.slots()[o]] 1 <= o < self.slots().len()
                    && self.slots()[o].props.status == ElementStatus::INACTIVE
                    implies self.free().contains(o as u32) by {
                    assert(old(self).slots()[o].props.status == ElementStatus::INACTIVE);
                    let i = choose|i: int| 0 <= i < old(self).free().len()
                        && old(self).free()[i] == o as u32;
                    assert(i < old(self).free().len() - 1);
                    assert(self.free()[i] == o as u32);
                }
            }
            Index::with_generation(offset, generation)
        } else {
            let offset = self.buffer.len() as u32;
            let slot = Slot {
                props: ElementProperties { generation: 1, status: ElementStatus::ACTIVE, tag: 0 },
                value: element,
            };
            self.buffer.push(slot);
            proof {
                lemma_active_count_agree(old_slots, self.buffer@, old_slots.len() as int);
                assert(active_count(self.buffer@) == active_count_to(self.buffer@, old_slots.len() as int) + 1);
            }
            Index::with_generation(offset, 1)
        }
    }

    /// Removes the element the handle names, if it resolves: the slot turns
    /// inactive, its generation is bumped past every handle issued for it,
    /// and the offset joins the free list. A handle that does not resolve is
    /// ignored. Afterwards the given handle resolves to nothing.
    pub fn remove(&mut self, index: Index<K>)
        requires
            old(self).wf(),
        ensures
            final(self).wf(),
            !final(self).resolves(index),
            !old(self).resolves(index) ==> final(self).slots() == old(self).slots()
                && final(self).free() == old(self).free(),
            old(self).resolves(index) ==> {
                &&& final(self).slots() == old(self).slots().update(index.offset as int, (Slot {
                    props: ElementProperties {
                        generation: bump_generation(old(self).slots()[index.offset as int].props.generation),
                        status: ElementStatus::INACTIVE,
                        tag: old(self).slots()[index.offset as int].props.tag,
                    },
                    value: old(self).slots()[index.offset as int].value,
                }))
                &&& final(self).free() == old(self).free().push(index.offset)
                &&& active_count(final(self).slots()) + 1 == active_count(old(self).slots())
            },
            forall|o: int| 0 <= o < old(self).slots().len() && o != index.offset
                ==> final(self).slots()[o] == old(self).slots()[o],
            final(self).slots().len() == old(self).slots().len(),
    {
        if !self.contains(&index) {
            return;
        }
        let ghost old_slots = self.buffer@;
        let o = index.offset as usize;
        let generation = self.buffer[o].props.generation;
        let bumped = if generation == u32::MAX { 1 } else { generation + 1 };
        self.buffer[o].props.generation = bumped;
        self.buffer[o].props.status = ElementStatus::INACTIVE;
        self.free_cells.push(index.offset);
        proof {
            assert(self.buffer@ == old_slots.update(index.offset as int, self.buffer@[index.offset as int]));
            lemma_active_count_update(old_slots, index.offset as int,
                self.buffer@[index.offset as int], old_slots.len() as int);
            assert forall|o2: int| #![trigger self.slots()[o2]] 1 <= o2 < self.slots().len()
                && self.slots()[o2].props.status == ElementStatus::INACTIVE
                implies self.free().contains(o2 as u32) by {
                if o2 == index.offset as int {
                    assert(self.free()[self.free().len() - 1] == index.offset);
                } else {
                    assert(old(self).free().contains(o2 as u32));
                    let i = choose|i: int| 0 <= i < old(self).free().len()
                        && old(self).free()[i] == o2 as u32;
                    assert(self.free()[i] == o2 as u32);
                }
            }
        }
    }

    /// Overwrites the element the handle names, leaving the slot bookkeeping
    /// untouched. Reports whether the handle resolved; nothing changes when
    /// it did not.
    pub fn set_value(&mut self, index: Index<K>, value: E) -> (r: bool)
        requires
            old(self).wf(),
        ensures
            final(self).wf(),
            r == old(self).resolves(index),
            !r ==> final(self).slots() == old(self).slots(),
            r ==> final(self).slots() == old(self).slots().update(index.offset as int, (Slot {
                props: old(self).slots()[index.offset as int].props,
                value,
            })),
            final(self).free() == old(self).free(),
            final(self).slots().len() == old(self).slots().len(),
            active_count(final(self).slots()) == active_count(old(self).slots()),
            forall|o: int| 0 <= o < old(self).slots().len() && o != index.offset
                ==> final(self).slots()[o] == old(self).slots()[o],
            forall|o: int| 0 <= o < old(self).slots().len()
                ==> #[trigger] final(self).slots()[o].props == old(self).slots()[o].props,
    {
        let ghost old_slots = self.buffer@;
        if self.contains(&index) {
            let o = index.offset as usize;
            self.buffer[o].value = value;
            proof {
                assert(self.buffer@ == old_slots.update(index.offset as int, self.buffer@[index.offset as int]));
                lemma_active_count_update(old_slots, index.offset as int,
                    self.buffer@[index.offset as int], old_slots.len() as int);
                assert forall|o2: int| #![trigger self.slots()[o2]] 1 <= o2 < self.slots().len()
                    && self.slots()[o2].props.status == ElementStatus::INACTIVE
                    implies self.free().contains(o2 as u32) by {
                    assert(old(self).free().contains(o2 as u32));
                }
            }
            true
        } else {
            false
        }
    }

    /// Overwrites the element value at a raw offset, active or not, leaving
    /// the slot bookkeeping untouched. Only compaction needs this: it
    /// rewrites the handles inside every surviving element.
    pub(crate) fn set_value_at(&mut self, o: usize, value: E)
        requires
            old(self).wf(),
            o < old(self).slots().len(),
        ensures
            final(self).wf(),
            final(self).slots() == old(self).slots().update(o as int, (Slot {
                props: old(self).slots()[o as int].props,
                value,
            })),
            final(self).free() == old(self).free(),
            final(self).slots().len() == old(self).slots().len(),
            active_count(final(self).slots()) == active_count(old(self).slots()),
            forall|j: int| 0 <= j < old(self).slots().len() && j != o
                ==> final(self).slots()[j] == old(self).slots()[j],
            forall|j: int| 0 <= j < old(self).slots().len()
                ==> #[trigger] final(self).slots()[j].props == old(self).slots()[j].props,
    {
        let ghost old_slots = self.buffer@;
        self.buffer[o].value = value;
        proof {
            assert(self.buffer@ == old_slots.update(o as int, self.buffer@[o as int]));
            if o >= 1 {
                lemma_active_count_update(old_slots, o as int,
                    self.buffer@[o as int], old_slots.len() as int);
            } else {
                lemma_active_count_agree(old_slots, self.buffer@, old_slots.len() as int);
            }
            assert forall|o2: int| #![trigger self.slots()[o2]] 1 <= o2 < self.slots().len()
                && self.slots()[o2].props.status == ElementStatus::INACTIVE
                implies self.free().contains(o2 as u32) by {
                assert(old(self).free().contains(o2 as u32));
            }
        }
    }

    /// Stamps the traversal tag of the slot the handle names. Reports whether
    /// the handle resolved; nothing changes when it did not.
    pub fn set_tag(&mut self, index: Index<K>, tag: Tag) -> (r: bool)
        requires
            old(self).wf(),
        ensures
            final(self).wf(),
            r == old(self).resolves(index),
            !r ==> final(self).slots() == old(self).slots(),
            r ==> final(self).slots() == old(self).slots().update(index.offset as int, (Slot {
                props: ElementProperties {
                    generation: old(self).slots()[index.offset as int].props.generation,
                    status: old(self).slots()[index.offset as int].props.status,
                    tag,
                },
                value: old(self).slots()[index.offset as int].value,
            })),
            final(self).free() == old(self).free(),
            final(self).slots().len() == old(self).slots().len(),
            active_count(final(self).slots()) == active_count(old(self).slots()),
            forall|o: int| 0 <= o < old(self).slots().len() && o != index.offset
                ==> final(self).slots()[o] == old(self).slots()[o],
            forall|o: int| 0 <= o < old(self).slots().len()
                ==> #[trigger] final(self).slots()[o].value == old(self).slots()[o].value
                    && final(self).slots()[o].props.status == old(self).slots()[o].props.status
                    && final(self).slots()[o].props.generation == old(self).slots()[o].props.generation,
    {
        let ghost old_slots = self.buffer@;
        if self.contains(&index) {
            let o = index.offset as usize;
            self.buffer[o].props.tag = tag;
            proof {
                assert(self.buffer@ == old_slots.update(index.offset as int, self.buffer@[index.offset as int]));
                lemma_active_count_update(old_slots, index.offset as int,
                    self.buffer@[index.offset as int], old_slots.len() as int);
                assert forall|o2: int| #![trigger self.slots()[o2]] 1 <= o2 < self.slots().len()
                    && self.slots()[o2].props.status == ElementStatus::INACTIVE
                    implies self.free().contains(o2 as u32) by {
                    assert(old(self).free().contains(o2 as u32));
                }
            }
            true
        } else {
            false
        }
    }

    /// The canonical handles of all active slots, in offset order.
    #[verifier::rlimit(30)]
    pub fn enumerate(&self) -> (r: Vec<Index<K>>)
        requires
            self.wf(),
        ensures
            r@.len() == active_count(self.slots()),
            forall|j: int| 0 <= j < r@.len() ==> self.resolves(#[trigger] r@[j])
                && r@[j] == self.handle_at(r@[j].offset as int),
            forall|j1: int, j2: int| 0 <= j1 < j2 < r@.len() ==> r@[j1].offset < r@[j2].offset,
    {
        let mut result: Vec<Index<K>> = Vec::new();
        let mut i: usize = 1;
        while i < self.buffer.len()
            invariant
                1 <= i <= self.slots().len(),
                self.slots().len() <= u32::MAX as int,
                result@.len() == active_count_to(self.slots(), i as int),
                forall|j: int| 0 <= j < result@.len() ==> self.resolves(#[trigger] result@[j])
                    && (result@[j].offset as int) < i
                    && result@[j] == self.handle_at(result@[j].offset as int),
                forall|j1: int, j2: int| 0 <= j1 < j2 < result@.len()
                    ==> result@[j1].offset < result@[j2].offset,
            decreases self.buffer.len() - i,
        {
            let props = &self.buffer[i].props;
            if props.status == ElementStatus::ACTIVE {
                let h: Index<K> = Index::with_generation(i as u32, props.generation);
                result.push(h);
                assert(result@[result@.len() - 1].offset == i);
            }
            i = i + 1;
        }
        result
    }

    /// Rebuilds the buffer without any inactive slots, keeping the active
    /// elements in their old order, and returns the remap table: for each
    /// old offset, the offset its slot now has, with 0 for the slots that
    /// were inactive and are gone. Slot bookkeeping travels with each
    /// element, so a handle rewritten through the table resolves exactly as
    /// it did before.
    #[verifier::rlimit(30)]
    pub fn compact(&mut self) -> (remap: Vec<Offset>)
        where
            E: Copy,
        requires
            old(self).wf(),
        ensures
            final(self).wf(),
            final(self).free().len() == 0,
            final(self).slots().len() == active_count(old(self).slots()) + 1,
            active_count(final(self).slots()) == active_count(old(self).slots()),
            final(self).slots()[0] == old(self).slots()[0],
            final(self).slots() == seq![old(self).slots()[0]]
                + active_prefix_seq(old(self).slots(), old(self).slots().len() as int),
            remap@.len() == old(self).slots().len(),
            remap@[0] == 0,
            forall|o: int| 1 <= o < old(self).slots().len() ==> (#[trigger] remap@[o] as int)
                == if old(self).active(o) { active_count_to(old(self).slots(), o) + 1 } else { 0 },
            forall|o: int| #![trigger remap@[o]] 1 <= o < old(self).slots().len() && old(self).active(o)
                ==> 1 <= remap@[o] && (remap@[o] as int) < final(self).slots().len()
                    && final(self).slots()[remap@[o] as int] == old(self).slots()[o],
    {
        let ghost old_slots = self.buffer@;
        let ghost n = old_slots.len() as int;
        let mut new_buffer: Vec<Slot<E>> = Vec::new();
        let mut remap: Vec<Offset> = Vec::new();
        new_buffer.push(self.buffer[0]);
        remap.push(0);
        let mut i: usize = 1;
        while i < self.buffer.len()
            invariant
                self.buffer@ == old_slots,
                old(self).slots() == old_slots,
                old(self).wf(),
                1 <= i <= n,
                n == old_slots.len(),
                remap@.len() == i as int,
                remap@[0] == 0,
                new_buffer@ == seq![old_slots[0]] + active_prefix_seq(old_slots, i as int),
                new_buffer@.len() == active_count_to(old_slots, i as int) + 1,
                forall|o: int| 1 <= o < i ==> (#[trigger] remap@[o] as int)
                    == if old(self).active(o) { active_count_to(old_slots, o) + 1 } else { 0 },
                forall|o: int| #![trigger remap@[o]] 1 <= o < i && old(self).active(o)
                    ==> 1 <= remap@[o] && (remap@[o] as int) < new_buffer@.len()
                        && new_buffer@[remap@[o] as int] == old_slots[o],
            decreases self.buffer.len() - i,
        {
            proof {
                lemma_active_count_bound(old_slots, i as int);
            }
            let slot = self.buffer[i];
            if slot.props.status == ElementStatus::ACTIVE {
                remap.push(new_buffer.len() as u32);
                new_buffer.push(slot);
                proof {
                    assert(new_buffer@ =~= seq![old_slots[0]]
                        + active_prefix_seq(old_slots, i + 1 as int));
                }
            } else {
                remap.push(0);
                proof {
                    assert(active_prefix_seq(old_slots, i + 1 as int)
                        == active_prefix_seq(old_slots, i as int));
                }
            }
            i = i + 1;
        }
        self.buffer = new_buffer;
        self.free_cells = Vec::new();
        proof {
            lemma_active_prefix_len(old_slots, n);
            lemma_active_prefix_from(old_slots, n);
            assert forall|o: int| #![trigger self.slots()[o]] 1 <= o < self.slots().len()
                implies self.slots()[o].props.status == ElementStatus::ACTIVE
                    && self.slots()[o].props.generation >= 1 by {
                let p = active_prefix_seq(old_slots, n);
                assert(self.slots()[o] == p[o - 1]);
                let oo = choose|oo: int| 1 <= oo < n
                    && old_slots[oo].props.status == ElementStatus::ACTIVE
                    && old_slots[oo] == p[o - 1];
            }
            assert(active_count(self.slots()) == self.slots().len() - 1) by {
                lemma_all_active_count(self.slots(), self.slots().len() as int);
            }
        }
        remap
    }
}

/// Over a range whose slots are all active, the count is full.
pub proof fn lemma_all_active_count<E>(s: Seq<Slot<E>>, n: int)
    requires
        forall|o: int| #![trigger s[o]] 1 <= o < n ==> s[o].props.status == ElementStatus::ACTIVE,
    ensures
        active_count_to(s, n) == if n <= 1 { 0 } else { n - 1 },
    decreases n,
{
    if n > 1 {
        lemma_all_active_count(s, n - 1);
    }
}

impl<K, E: Copy> CompactableBuffer<K, E> {
    /// The values of all active slots, in offset order.
    pub fn active_elements(&self) -> (r: Vec<E>)
        requires
            self.wf(),
        ensures
            r@ == active_prefix_seq(self.slots(), self.slots().len() as int)
                .map_values(|s: Slot<E>| s.value),
            r@.len() == active_count(self.slots()),
    {
        let mut result: Vec<E> = Vec::new();
        let mut i: usize = 1;
        while i < self.buffer.len()
            invariant
                self.wf(),
                1 <= i <= self.slots().len(),
                result@ == active_prefix_seq(self.slots(), i as int)
                    .map_values(|s: Slot<E>| s.value),
            decreases self.buffer.len() - i,
        {
            let slot = &self.buffer[i];
            if slot.props.status == ElementStatus::ACTIVE {
                result.push(slot.value);
                proof {
                    assert(result@ == active_prefix_seq(self.slots(), i + 1 as int)
                        .map_values(|s: Slot<E>| s.value));
                }
            }
            i = i + 1;
        }
        proof {
            lemma_active_prefix_len(self.slots(), self.slots().len() as int);
        }
        result
    }
}

impl<K, E: Default> Default for CompactableBuffer<K, E> {
    /// A fresh buffer: only the reserved slot 0, nothing active, nothing free.
    fn default() -> (r: Self)
        ensures
            r.wf(),
            r.slots().len() == 1,
            active_count(r.slots()) == 0,
            r.free().len() == 0,
    {
        let mut buffer: Vec<Slot<E>> = Vec::new();
        buffer.push(Slot {
            props: ElementProperties { generation: 0, status: ElementStatus::INACTIVE, tag: 0 },
            value: E::default(),
        });
        CompactableBuffer { buffer, free_cells: Vec::new(), marker: PhantomData }
    }
}

/// Walks one buffer front to back, handing out each active element once per
/// pass: every returned slot is stamped with the pass's tag, and a slot
/// already carrying the tag is skipped.
#[derive(Debug)]
pub struct ElementEnumerator<K> {
    pub tag: Tag,
    pub cursor: usize,
    pub marker: PhantomData<K>,
}

impl<K> ElementEnumerator<K> {
    /// A fresh pass with the given tag, positioned past the reserved slot.
    pub fn new(tag: Tag) -> (r: Self)
        ensures
            r.tag == tag,
            r.cursor == 1,
    {
        ElementEnumerator { tag, cursor: 1, marker: PhantomData }
    }

    /// Advances to the next active slot this pass has not stamped yet,
    /// stamps it, and returns its canonical handle; or reports that the
    /// pass is over. Only the returned slot's tag changes, and no active
    /// slot the pass still owes is skipped on the way.
    pub fn next_element<E>(&mut self, buffer: &mut CompactableBuffer<K, E>) -> (r: Option<Index<K>>)
        requires
            old(buffer).wf(),
        ensures
            final(buffer).wf(),
            final(self).tag == old(self).tag,
            final(self).cursor >= old(self).cursor,
            final(buffer).free() == old(buffer).free(),
            final(buffer).slots().len() == old(buffer).slots().len(),
            r matches Some(h) ==> {
                &&& old(buffer).resolves(h)
                &&& final(buffer).resolves(h)
                &&& h == old(buffer).handle_at(h.offset as int)
                &&& old(self).cursor <= h.offset as int
                &&& final(self).cursor == h.offset + 1
                &&& old(buffer).slots()[h.offset as int].props.tag != final(self).tag
                &&& final(buffer).slots() == old(buffer).slots().update(h.offset as int, (Slot {
                    props: ElementProperties {
                        generation: old(buffer).slots()[h.offset as int].props.generation,
                        status: old(buffer).slots()[h.offset as int].props.status,
                        tag: final(self).tag,
                    },
                    value: old(buffer).slots()[h.offset as int].value,
                }))
            },
            r is None ==> final(buffer).slots() == old(buffer).slots()
                && final(self).cursor >= final(buffer).slots().len(),
            r matches Some(h) ==> forall|o: int| old(self).cursor <= o < h.offset as int
                ==> !((#[trigger] old(buffer).slots()[o]).props.status == ElementStatus::ACTIVE
                    && old(buffer).slots()[o].props.tag != old(self).tag),
            r is None ==> forall|o: int| old(self).cursor <= o < old(buffer).slots().len()
                ==> !((#[trigger] old(buffer).slots()[o]).props.status == ElementStatus::ACTIVE
                    && old(buffer).slots()[o].props.tag != old(self).tag),
            forall|o: int| 0 <= o < old(buffer).slots().len()
                ==> #[trigger] final(buffer).slots()[o].value == old(buffer).slots()[o].value
                    && final(buffer).slots()[o].props.status == old(buffer).slots()[o].props.status
                    && final(buffer).slots()[o].props.generation == old(buffer).slots()[o].props.generation,
    {
        let ghost old_slots = buffer.slots();
        while self.cursor < buffer.buffer.len()
            invariant
                buffer.wf(),
                buffer.slots() == old_slots,
                old(buffer).slots() == old_slots,
                buffer.free() == old(buffer).free(),
                self.tag == old(self).tag,
                self.cursor >= old(self).cursor,
                forall|o: int| old(self).cursor <= o < self.cursor
                    ==> !((#[trigger] old_slots[o]).props.status == ElementStatus::ACTIVE
                        && old_slots[o].props.tag != old(self).tag),
            decreases buffer.buffer.len() - self.cursor,
        {
            let offset = self.cursor;
            self.cursor = self.cursor + 1;
            let props = &buffer.buffer[offset].props;
            if props.status == ElementStatus::ACTIVE && props.tag != self.tag {
                let h: Index<K> = Index::with_generation(offset as u32, props.generation);
                let stamped = buffer.set_tag(h, self.tag);
                assert(stamped);
                return Some(h);
            }
        }
        None
    }
}

} // verus!
