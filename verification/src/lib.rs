//! An index based half-edge mesh implementation.
//!
//! Every element of a mesh (point, vertex, half-edge, face) lives in a
//! generation-stamped slot buffer and is reached only through handles:
//! small (offset, generation) pairs that must be re-validated on every
//! dereference. The kernel owns one buffer per element kind, supports
//! compaction of the buffers with rewriting of every cross-reference, and
//! the mesh layer on top offers topology navigation and cycle-safe
//! traversal of edge loops and vertex rings.

use vstd::prelude::*;

pub mod handles;
pub mod traits;
pub mod buffer;
pub mod elements;
pub mod kernel;
pub mod mesh;
pub mod utils;
pub mod operations;
pub mod iterators;
pub mod operator;
pub mod laws;

verus! {

} // verus!
