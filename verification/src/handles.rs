//! Generation-stamped handles for the elements of a mesh.
//!
//! A handle pairs a slot offset with the generation the slot had when the
//! handle was issued. Offset `0` is reserved: it never holds an element, so
//! the default handle resolves to nothing. Generation `0` is the "ignore"
//! sentinel: a handle carrying it matches a slot of any generation.

use vstd::prelude::*;
use core::marker::PhantomData;
use crate::traits::IsValid;

verus! {

/// Our default value for uninitialized or unconnected components in the mesh.
pub const INVALID_COMPONENT_OFFSET: u32 = 0;

/// The generation value that makes a handle match a slot of any generation.
pub const IGNORED_GENERATION: u32 = 0;

pub type Offset = u32;
pub type Generation = u32;
pub type Tag = u32;

/// Marker type for the point buffer.
#[derive(Clone, Copy, Debug)]
pub struct PointKind;

/// Marker type for the vertex buffer.
#[derive(Clone, Copy, Debug)]
pub struct VertexKind;

/// Marker type for the half-edge buffer.
#[derive(Clone, Copy, Debug)]
pub struct EdgeKind;

/// Marker type for the face buffer.
#[derive(Clone, Copy, Debug)]
pub struct FaceKind;

/// A typed handle: an offset into one element buffer plus the generation
/// the slot is expected to carry.
#[derive(Debug)]
pub struct Index<K> {
    pub offset: u32,
    pub generation: u32,
    pub marker: PhantomData<K>,
}

impl<K> Clone for Index<K> {
    fn clone(&self) -> (r: Self)
        ensures
            r == *self,
    {
        Index { offset: self.offset, generation: self.generation, marker: PhantomData }
    }
}

impl<K> Copy for Index<K> {}

/// Handle to Point data in a Mesh.
pub type PointIndex = Index<PointKind>;

/// Handle to Vertex data in a Mesh.
pub type VertexIndex = Index<VertexKind>;

/// Handle to Edge data in a Mesh.
pub type EdgeIndex = Index<EdgeKind>;

/// Handle to Face data in a Mesh.
pub type FaceIndex = Index<FaceKind>;

impl<K> Index<K> {
    /// The handle for a fresh offset, with the generation left at the
    /// "ignore" sentinel.
    pub fn new(offset: Offset) -> (r: Index<K>)
        ensures
            r.offset == offset,
            r.generation == IGNORED_GENERATION,
    {
        Index { offset, generation: IGNORED_GENERATION, marker: PhantomData }
    }

    pub fn with_generation(offset: Offset, generation: Generation) -> (r: Index<K>)
        ensures
            r.offset == offset,
            r.generation == generation,
    {
        Index { offset, generation, marker: PhantomData }
    }

    /// The spec-level image of `with_generation`.
    pub open spec fn spec_new(offset: u32, generation: u32) -> Index<K> {
        Index { offset, generation, marker: PhantomData }
    }

    /// Whether two handles name the same slot, with the generation ignored
    /// where either side carries the sentinel.
    pub open spec fn eq_spec(self, other: Index<K>) -> bool {
        self.offset == other.offset
            && (self.generation == IGNORED_GENERATION
                || other.generation == IGNORED_GENERATION
                || self.generation == other.generation)
    }
}

impl<K> Default for Index<K> {
    /// The default handle points at the reserved slot and resolves to nothing.
    fn default() -> (r: Index<K>)
        ensures
            r.offset == INVALID_COMPONENT_OFFSET,
            r.generation == IGNORED_GENERATION,
    {
        Index { offset: INVALID_COMPONENT_OFFSET, generation: IGNORED_GENERATION, marker: PhantomData }
    }
}

impl<K> PartialEq for Index<K> {
    /// Handles compare by offset alone when either generation is the
    /// "ignore" sentinel, and by both fields otherwise.
    fn eq(&self, other: &Index<K>) -> (r: bool)
    {
        self.offset == other.offset
            && (self.generation == IGNORED_GENERATION
                || other.generation == IGNORED_GENERATION
                || self.generation == other.generation)
    }
}

impl<K> Eq for Index<K> {}

impl<K> vstd::std_specs::cmp::PartialEqSpecImpl for Index<K> {
    open spec fn obeys_eq_spec() -> bool {
        true
    }

    open spec fn eq_spec(&self, other: &Index<K>) -> bool {
        Index::eq_spec(*self, *other)
    }
}

impl<K> IsValid for Index<K> {
    /// A handle is valid as long as its offset is not the reserved one.
    open spec fn valid_spec(&self) -> bool {
        self.offset != INVALID_COMPONENT_OFFSET
    }

    fn is_valid(&self) -> (r: bool) {
        self.offset != INVALID_COMPONENT_OFFSET
    }
}

/// A type-erased component reference: which buffer, and where in it.
#[derive(Clone, Copy, Debug)]
pub enum ComponentID {
    Invalid,
    Face(FaceIndex),
    Vertex(VertexIndex),
    Edge(EdgeIndex),
    Point(PointIndex),
}

impl Default for ComponentID {
    fn default() -> (r: ComponentID)
        ensures
            r is Invalid,
    {
        ComponentID::Invalid
    }
}

/// A type-erased handle, used where elements of several kinds travel
/// through one interface (selections, the `MakeFace` results).
#[derive(Clone, Copy, Debug)]
pub struct Handle {
    pub id: ComponentID,
    pub generation: Option<Generation>,
}

impl Handle {
    /// A handle that matches a slot of any generation.
    pub fn for_id(id: ComponentID) -> (r: Handle)
        ensures
            r.id_spec() == id,
            r.generation_spec() is None,
    {
        Handle { id, generation: None }
    }

    pub fn new(id: ComponentID, generation: Generation) -> (r: Handle)
        ensures
            r.id_spec() == id,
            r.generation_spec() == Some(generation),
    {
        Handle { id, generation: Some(generation) }
    }

    pub open spec fn id_spec(self) -> ComponentID {
        self.id
    }

    pub open spec fn generation_spec(self) -> Option<Generation> {
        self.generation
    }

    pub fn id(&self) -> (r: ComponentID)
        ensures
            r == self.id_spec(),
    {
        self.id
    }

    /// The offset of the slot this handle names, or the reserved offset
    /// where the handle is invalid.
    pub fn index(&self) -> (r: Offset)
        ensures
            r == self.index_spec(),
    {
        match self.id {
            ComponentID::Invalid => INVALID_COMPONENT_OFFSET,
            ComponentID::Face(h) => h.offset,
            ComponentID::Vertex(h) => h.offset,
            ComponentID::Edge(h) => h.offset,
            ComponentID::Point(h) => h.offset,
        }
    }

    pub open spec fn index_spec(self) -> Offset {
        match self.id {
            ComponentID::Invalid => INVALID_COMPONENT_OFFSET,
            ComponentID::Face(h) => h.offset,
            ComponentID::Vertex(h) => h.offset,
            ComponentID::Edge(h) => h.offset,
            ComponentID::Point(h) => h.offset,
        }
    }
}

/// Whether two erased references name the same slot of the same buffer. The
/// buffers' generations are not part of a `ComponentID`, so this compares
/// kind and offset.
pub open spec fn id_matches(a: ComponentID, b: ComponentID) -> bool {
    match (a, b) {
        (ComponentID::Invalid, ComponentID::Invalid) => true,
        (ComponentID::Face(x), ComponentID::Face(y)) => x.offset == y.offset,
        (ComponentID::Vertex(x), ComponentID::Vertex(y)) => x.offset == y.offset,
        (ComponentID::Edge(x), ComponentID::Edge(y)) => x.offset == y.offset,
        (ComponentID::Point(x), ComponentID::Point(y)) => x.offset == y.offset,
        _ => false,
    }
}

impl Handle {
    /// Whether two handles are equal: they name the same slot, with the
    /// generation ignored where either side carries none.
    pub open spec fn eq_spec(self, other: Handle) -> bool {
        id_matches(self.id, other.id)
            && (self.generation is None || other.generation is None
                || self.generation == other.generation)
    }
}

impl PartialEq for Handle {
    /// Handles compare by component alone when either generation is absent,
    /// and by component and generation otherwise.
    fn eq(&self, other: &Handle) -> (r: bool)
    {
        let ids_match = match (self.id, other.id) {
            (ComponentID::Invalid, ComponentID::Invalid) => true,
            (ComponentID::Face(x), ComponentID::Face(y)) => x.offset == y.offset,
            (ComponentID::Vertex(x), ComponentID::Vertex(y)) => x.offset == y.offset,
            (ComponentID::Edge(x), ComponentID::Edge(y)) => x.offset == y.offset,
            (ComponentID::Point(x), ComponentID::Point(y)) => x.offset == y.offset,
            _ => false,
        };
        let generations_match = match (self.generation, other.generation) {
            (Option::None, _) => true,
            (_, Option::None) => true,
            (Option::Some(g1), Option::Some(g2)) => g1 == g2,
        };
        ids_match && generations_match
    }
}

impl vstd::std_specs::cmp::PartialEqSpecImpl for Handle {
    open spec fn obeys_eq_spec() -> bool {
        true
    }

    open spec fn eq_spec(&self, other: &Handle) -> bool {
        Handle::eq_spec(*self, *other)
    }
}

impl Default for Handle {
    fn default() -> (r: Handle)
        ensures
            r.id_spec() is Invalid,
            r.generation_spec() is None,
    {
        Handle { id: ComponentID::Invalid, generation: None }
    }
}

impl IsValid for Handle {
    /// A handle is valid when it names an element slot with a usable offset.
    open spec fn valid_spec(&self) -> bool {
        match self.id {
            ComponentID::Invalid => false,
            ComponentID::Face(h) => h.offset != INVALID_COMPONENT_OFFSET,
            ComponentID::Vertex(h) => h.offset != INVALID_COMPONENT_OFFSET,
            ComponentID::Edge(h) => h.offset != INVALID_COMPONENT_OFFSET,
            ComponentID::Point(h) => h.offset != INVALID_COMPONENT_OFFSET,
        }
    }

    fn is_valid(&self) -> (r: bool) {
        match self.id {
            ComponentID::Invalid => false,
            ComponentID::Face(h) => h.offset != INVALID_COMPONENT_OFFSET,
            ComponentID::Vertex(h) => h.offset != INVALID_COMPONENT_OFFSET,
            ComponentID::Edge(h) => h.offset != INVALID_COMPONENT_OFFSET,
            ComponentID::Point(h) => h.offset != INVALID_COMPONENT_OFFSET,
        }
    }
}

} // verus!
