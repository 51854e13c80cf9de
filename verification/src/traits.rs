//! The capability interfaces of the mesh: validity testing and the uniform
//! add/remove/get surface that the kernel and the mesh expose for each
//! element kind.

use vstd::prelude::*;
use crate::handles::{Index, Handle};

verus! {

/// An interface for asserting the validity of components and indices of the mesh.
pub trait IsValid {
    /// What it means, at the specification level, for this value to be valid.
    spec fn valid_spec(&self) -> bool;

    fn is_valid(&self) -> (r: bool)
        ensures
            r == self.valid_spec(),
    ;
}

/// Interface for adding elements of kind `K` to a store.
pub trait AddElement<K, E> {
    /// What the store asks of callers before an element may be added.
    spec fn add_pre(&self) -> bool;

    fn add(&mut self, element: E) -> (h: Index<K>)
        requires
            old(self).add_pre(),
    ;
}

/// Interface for removing elements of kind `K` from a store.
pub trait RemoveElement<K> {
    /// What the store asks of callers before an element may be removed.
    spec fn remove_pre(&self) -> bool;

    fn remove(&mut self, index: Index<K>)
        requires
            old(self).remove_pre(),
    ;
}

/// Interface for getting an element reference out of a store.
pub trait GetElement<K, E> {
    fn get(&self, index: &Index<K>) -> (r: Option<&E>);
}

/// Interface for building a whole face out of the arguments `A`.
pub trait MakeFace<A> {
    /// What the mesh asks of callers before a face may be built.
    spec fn make_face_pre(&self, args: A) -> bool;

    fn make_face(&mut self, args: A) -> (h: Handle)
        requires
            old(self).make_face_pre(args),
    ;
}

} // verus!
